//! Planning of chunked, resumable file transfers: chunk sizing, the chunk
//! table a receiver keeps, how chunks are shared out among parallel
//! streams, and what each stream does with a chunk. The QUIC streams and
//! the files themselves are the caller's part.

use vstd::prelude::*;
use crate::text::{decimal, push_all, str_eq};

verus! {

/// Concurrent bidirectional streams a sender offers.
pub const PARALLEL_STREAMS: u64 = 4;
/// Attempts a receiving stream makes before giving up.
pub const RETRY_ATTEMPTS: u32 = 5;
/// Bytes received between two saves of the chunk table.
pub const SAVE_INTERVAL_BYTES: u64 = 524288;
/// Size of each read/write buffer in the copy loops.
pub const IO_COPY_BUFFER: usize = 262144;

pub const MB: u64 = 1048576;


/// Chunk size for a file of `file_size` bytes.
pub open spec fn chunk_size_spec(file_size: u64) -> u64 {
    if file_size < 104_857_600 {
        1048576
    } else if file_size <= 1_073_741_824 {
        4194304
    } else if file_size <= 10_737_418_240 {
        16777216
    } else {
        67108864
    }
}

/// Chunk size for a file: 1 MB below 100 MB, 4 MB up to 1 GB, 16 MB up to
/// 10 GB, 64 MB beyond.
pub fn chunk_size_for(file_size: u64) -> (cs: u64)
    ensures
        cs == chunk_size_spec(file_size),
{
    if file_size < 104_857_600 {
        1048576
    } else if file_size <= 1_073_741_824 {
        4194304
    } else if file_size <= 10_737_418_240 {
        16777216
    } else {
        67108864
    }
}

pub open spec fn chunk_label_spec(file_size: u64) -> Seq<char> {
    if file_size < 104_857_600 {
        "1MB"@
    } else if file_size <= 1_073_741_824 {
        "4MB"@
    } else if file_size <= 10_737_418_240 {
        "16MB"@
    } else {
        "64MB"@
    }
}

/// The chunk size for a file, as shown to the user.
pub fn chunk_size_label(file_size: u64) -> (s: &'static str)
    ensures
        s@ == chunk_label_spec(file_size),
{
    if file_size < 104_857_600 {
        "1MB"
    } else if file_size <= 1_073_741_824 {
        "4MB"
    } else if file_size <= 10_737_418_240 {
        "16MB"
    } else {
        "64MB"
    }
}

/// The chunk-size table: files under 100 MiB go in 1 MiB chunks, up to
/// 1 GiB in 4 MiB chunks, up to 10 GiB in 16 MiB chunks, larger ones in
/// 64 MiB chunks; so a larger file never gets smaller chunks.
pub proof fn chunk_sizes_follow_the_table(file_size: u64, larger: u64)
    ensures
        file_size < 100 * MB ==> chunk_size_spec(file_size) == MB,
        100 * MB <= file_size <= 1024 * MB ==> chunk_size_spec(file_size) == 4 * MB,
        1024 * MB < file_size <= 10 * 1024 * MB ==> chunk_size_spec(file_size) == 16 * MB,
        10 * 1024 * MB < file_size ==> chunk_size_spec(file_size) == 64 * MB,
        file_size <= larger ==> chunk_size_spec(file_size) <= chunk_size_spec(larger),
{
}

/// The label names the chunk size that `chunk_size_for` picks, in whole MB.
pub proof fn chunk_label_names_chunk_size(file_size: u64)
    ensures
        chunk_label_spec(file_size) == decimal((chunk_size_spec(file_size) / 1048576) as nat) + "MB"@,
        chunk_size_spec(file_size) % 1048576 == 0,
{
    reveal_strlit("1MB");
    reveal_strlit("4MB");
    reveal_strlit("16MB");
    reveal_strlit("64MB");
    reveal_strlit("MB");
    assert(decimal(1) == seq!['1']);
    assert(decimal(4) == seq!['4']);
    assert(decimal(6) == seq!['6']);
    assert(decimal(16) == decimal(1).push('6'));
    assert(decimal(64) == decimal(6).push('4'));
    if file_size < 104_857_600 {
        assert(chunk_size_spec(file_size) / 1048576 == 1);
        assert("1MB"@ =~= seq!['1'] + "MB"@);
    } else if file_size <= 1_073_741_824 {
        assert(chunk_size_spec(file_size) / 1048576 == 4);
        assert("4MB"@ =~= seq!['4'] + "MB"@);
    } else if file_size <= 10_737_418_240 {
        assert(chunk_size_spec(file_size) / 1048576 == 16);
        assert("16MB"@ =~= seq!['1', '6'] + "MB"@);
    } else {
        assert(chunk_size_spec(file_size) / 1048576 == 64);
        assert("64MB"@ =~= seq!['6', '4'] + "MB"@);
    }
}

/// What a sender shares with a receiver before any data moves.
#[derive(Debug)]
pub struct TransferMeta {
    pub filename: String,
    pub total_size: u64,
    pub chunk_count: u64,
    pub chunk_size: u64,
    pub file_checksum: String,
    /// Serialized network address of the sender's endpoint.
    pub node_addr: String,
    pub parallel_streams: u64,
}

/// Number of `chunk_size` chunks that cover `total` bytes.
pub open spec fn chunks_needed(total: int, chunk_size: int) -> int {
    if total % chunk_size == 0 {
        total / chunk_size
    } else {
        total / chunk_size + 1
    }
}

/// `total.div_ceil(chunk_size)`.
pub fn div_ceil(total: u64, chunk_size: u64) -> (n: u64)
    requires
        chunk_size > 0,
    ensures
        n == chunks_needed(total as int, chunk_size as int),
{
    let q: u64 = total / chunk_size;
    if total % chunk_size == 0 {
        q
    } else {
        assert(q < total) by (nonlinear_arith)
            requires
                q == total / chunk_size,
                chunk_size > 0,
                total % chunk_size != 0,
        ;
        q + 1
    }
}

/// The metadata for sending a file of `total_size` bytes: its chunk size
/// and chunk count, and the number of parallel streams.
pub fn plan_transfer(filename: String, total_size: u64, file_checksum: String, node_addr: String) -> (m: TransferMeta)
    ensures
        m.filename == filename,
        m.total_size == total_size,
        m.chunk_size == chunk_size_spec(total_size),
        m.chunk_count == chunks_needed(total_size as int, chunk_size_spec(total_size) as int),
        m.file_checksum == file_checksum,
        m.node_addr == node_addr,
        m.parallel_streams == PARALLEL_STREAMS,
{
    let chunk_size = chunk_size_for(total_size);
    let chunk_count = div_ceil(total_size, chunk_size);
    TransferMeta {
        filename,
        total_size,
        chunk_count,
        chunk_size,
        file_checksum,
        node_addr,
        parallel_streams: PARALLEL_STREAMS,
    }
}

/// Length of chunk `i` of a file of `total` bytes cut into `chunk_size`.
pub open spec fn chunk_len(i: int, chunk_size: int, total: int) -> int {
    if chunk_size <= total - i * chunk_size {
        chunk_size
    } else {
        total - i * chunk_size
    }
}

/// Total length of the first `k` chunks.
pub open spec fn layout_sum(k: nat, chunk_size: int, total: int) -> int
    decreases k,
{
    if k == 0 {
        0
    } else {
        layout_sum((k - 1) as nat, chunk_size, total) + chunk_len(k - 1, chunk_size, total)
    }
}

proof fn lemma_layout_prefix(k: nat, chunk_size: int, total: int)
    requires
        chunk_size > 0,
        total >= 0,
        k <= chunks_needed(total, chunk_size),
    ensures
        layout_sum(k, chunk_size, total) == if k * chunk_size <= total { k * chunk_size } else { total },
    decreases k,
{
    if k == 0 {
        assert(k * chunk_size == 0);
    } else {
        let j = (k - 1) as int;
        lemma_layout_prefix((k - 1) as nat, chunk_size, total);
        lemma_chunks_needed(total, chunk_size);
        assert(total > 0);
        assert(j * chunk_size < total) by (nonlinear_arith)
            requires
                0 <= j,
                j + 1 <= chunks_needed(total, chunk_size),
                (chunks_needed(total, chunk_size) - 1) * chunk_size < total,
                chunk_size > 0,
        ;
        assert(k * chunk_size == j * chunk_size + chunk_size) by (nonlinear_arith)
            requires
                k == j + 1,
        ;
        assert(layout_sum((k - 1) as nat, chunk_size, total) == j * chunk_size);
        if chunk_size <= total - j * chunk_size {
            assert(k * chunk_size <= total);
        } else {
            assert(k * chunk_size > total);
        }
        assert(layout_sum(k, chunk_size, total) == j * chunk_size + chunk_len(j, chunk_size, total));
    }
}

/// `chunks_needed` chunks are just enough: all but the last lie wholly
/// inside the file and together they reach its end.
proof fn lemma_chunks_needed(total: int, chunk_size: int)
    requires
        chunk_size > 0,
        total >= 0,
    ensures
        chunks_needed(total, chunk_size) >= 0,
        total == 0 ==> chunks_needed(total, chunk_size) == 0,
        total > 0 ==> (chunks_needed(total, chunk_size) - 1) * chunk_size < total,
        chunks_needed(total, chunk_size) * chunk_size >= total,
        chunks_needed(total, chunk_size) * chunk_size < total + chunk_size,
{
    let q = total / chunk_size;
    let r = total % chunk_size;
    assert(total == q * chunk_size + r && 0 <= r < chunk_size && q >= 0) by (nonlinear_arith)
        requires
            q == total / chunk_size,
            r == total % chunk_size,
            chunk_size > 0,
            total >= 0,
    ;
    let n = chunks_needed(total, chunk_size);
    if r == 0 {
        assert(n * chunk_size == total);
        if total > 0 {
            assert((n - 1) * chunk_size == total - chunk_size) by (nonlinear_arith)
                requires
                    n * chunk_size == total,
            ;
        }
    } else {
        assert(n * chunk_size == q * chunk_size + chunk_size) by (nonlinear_arith)
            requires
                n == q + 1,
        ;
    }
}

/// Cutting a file into `chunks_needed` chunks covers it exactly: the chunk
/// lengths add up to the file size, and each chunk is non-empty and at most
/// one chunk size long.
pub proof fn chunk_layout_covers_file(total: u64, chunk_size: u64)
    requires
        chunk_size > 0,
    ensures
        layout_sum(chunks_needed(total as int, chunk_size as int) as nat, chunk_size as int, total as int) == total,
        forall|i: int| 0 <= i < chunks_needed(total as int, chunk_size as int) ==>
            0 < #[trigger] chunk_len(i, chunk_size as int, total as int) <= chunk_size,
{
    let n = chunks_needed(total as int, chunk_size as int);
    lemma_chunks_needed(total as int, chunk_size as int);
    lemma_layout_prefix(n as nat, chunk_size as int, total as int);
    assert forall|i: int| 0 <= i < n implies 0 < #[trigger] chunk_len(i, chunk_size as int, total as int) <= chunk_size by {
        assert(total > 0);
        assert(i * chunk_size < total) by (nonlinear_arith)
            requires
                0 <= i,
                i + 1 <= n,
                (n - 1) * chunk_size < total,
                chunk_size > 0,
        ;
    }
}

impl Clone for TransferMeta {
    fn clone(&self) -> (r: Self)
        ensures
            r == *self,
    {
        TransferMeta {
            filename: self.filename.clone(),
            total_size: self.total_size,
            chunk_count: self.chunk_count,
            chunk_size: self.chunk_size,
            file_checksum: self.file_checksum.clone(),
            node_addr: self.node_addr.clone(),
            parallel_streams: self.parallel_streams,
        }
    }
}

/// The receiver's record of one chunk.
#[derive(Debug)]
pub struct ChunkState {
    pub index: u64,
    pub offset: u64,
    pub size: u64,
    pub received: u64,
    pub checksum: String,
    pub done: bool,
}

impl Clone for ChunkState {
    fn clone(&self) -> (r: Self)
        ensures
            r == *self,
    {
        ChunkState {
            index: self.index,
            offset: self.offset,
            size: self.size,
            received: self.received,
            checksum: self.checksum.clone(),
            done: self.done,
        }
    }
}

/// The chunk table of `meta` can be laid out: every chunk starts inside
/// the file and no offset overflows.
pub open spec fn layout_fits(meta: TransferMeta) -> bool {
    meta.chunk_count == 0 || (meta.chunk_count - 1) * meta.chunk_size <= meta.total_size
}

/// A fresh chunk table: one entry per chunk, none received.
pub fn initial_chunk_states(meta: &TransferMeta) -> (states: Vec<ChunkState>)
    requires
        layout_fits(*meta),
    ensures
        states@.len() == meta.chunk_count,
        forall|i: int| 0 <= i < states@.len() ==> {
            let c = #[trigger] states@[i];
            &&& c.index == i
            &&& c.offset == i * meta.chunk_size
            &&& c.size == chunk_len(i, meta.chunk_size as int, meta.total_size as int)
            &&& c.received == 0
            &&& c.checksum@ == Seq::<char>::empty()
            &&& !c.done
        },
{
    let mut states: Vec<ChunkState> = Vec::new();
    let mut i: u64 = 0;
    while i < meta.chunk_count
        invariant
            i <= meta.chunk_count,
            layout_fits(*meta),
            states@.len() == i,
            forall|k: int| 0 <= k < i ==> {
                let c = #[trigger] states@[k];
                &&& c.index == k
                &&& c.offset == k * meta.chunk_size
                &&& c.size == chunk_len(k, meta.chunk_size as int, meta.total_size as int)
                &&& c.received == 0
                &&& c.checksum@ == Seq::<char>::empty()
                &&& !c.done
            },
        decreases meta.chunk_count - i,
    {
        assert(i * meta.chunk_size <= meta.total_size) by (nonlinear_arith)
            requires
                i < meta.chunk_count,
                (meta.chunk_count - 1) * meta.chunk_size <= meta.total_size,
                meta.chunk_size >= 0,
        ;
        let offset: u64 = i * meta.chunk_size;
        let left: u64 = meta.total_size - offset;
        let size: u64 = if meta.chunk_size < left { meta.chunk_size } else { left };
        states.push(ChunkState { index: i, offset, size, received: 0, checksum: String::new(), done: false });
        i = i + 1;
    }
    states
}

/// Bytes a chunk contributes to the progress total.
pub open spec fn chunk_progress(c: ChunkState) -> int {
    if c.done {
        c.size as int
    } else if c.received <= c.size {
        c.received as int
    } else {
        c.size as int
    }
}

/// Bytes of the file that the table records as received.
pub open spec fn completed_sum(s: Seq<ChunkState>) -> int
    decreases s.len(),
{
    if s.len() == 0 {
        0
    } else {
        completed_sum(s.drop_last()) + chunk_progress(s.last())
    }
}

/// Bytes received so far: full size for finished chunks, otherwise what
/// was received (at most the chunk's size).
pub fn bytes_completed(states: &[ChunkState]) -> (total: u64)
    requires
        completed_sum(states@) <= u64::MAX,
    ensures
        total == completed_sum(states@),
{
    let mut total: u64 = 0;
    let mut i: usize = 0;
    while i < states.len()
        invariant
            i <= states@.len(),
            completed_sum(states@) <= u64::MAX,
            total == completed_sum(states@.take(i as int)),
        decreases states@.len() - i,
    {
        proof {
            assert(states@.take(i + 1).drop_last() == states@.take(i as int));
            lemma_completed_sum_prefix(states@, i + 1);
        }
        let c = &states[i];
        let add: u64 = if c.done { c.size } else if c.received <= c.size { c.received } else { c.size };
        total = total + add;
        i = i + 1;
    }
    assert(states@.take(states@.len() as int) == states@);
    total
}

proof fn lemma_completed_sum_prefix(s: Seq<ChunkState>, k: int)
    requires
        0 <= k <= s.len(),
    ensures
        0 <= completed_sum(s.take(k)) <= completed_sum(s),
    decreases s.len(),
{
    if k == s.len() {
        assert(s.take(k) == s);
        lemma_completed_sum_nonneg(s);
    } else {
        assert(s.drop_last().take(k) == s.take(k));
        lemma_completed_sum_prefix(s.drop_last(), k);
    }
}

proof fn lemma_completed_sum_nonneg(s: Seq<ChunkState>)
    ensures
        completed_sum(s) >= 0,
    decreases s.len(),
{
    if s.len() > 0 {
        lemma_completed_sum_nonneg(s.drop_last());
    }
}

proof fn lemma_completed_all_done(s: Seq<ChunkState>, meta: TransferMeta)
    requires
        s.len() <= meta.chunk_count,
        forall|i: int| 0 <= i < s.len() ==> (#[trigger] s[i]).done
            && s[i].size == chunk_len(i, meta.chunk_size as int, meta.total_size as int),
    ensures
        completed_sum(s) == layout_sum(s.len(), meta.chunk_size as int, meta.total_size as int),
    decreases s.len(),
{
    if s.len() > 0 {
        let t = s.drop_last();
        assert forall|i: int| 0 <= i < t.len() implies (#[trigger] t[i]).done
            && t[i].size == chunk_len(i, meta.chunk_size as int, meta.total_size as int) by {
            assert(t[i] == s[i]);
        }
        lemma_completed_all_done(t, meta);
        assert(s.last() == s[s.len() - 1]);
    }
}

/// Progress starts at zero for a fresh table, and once every chunk of a
/// planned transfer is finished the progress equals the file size.
pub proof fn progress_runs_from_zero_to_file_size(meta: TransferMeta, fresh: Seq<ChunkState>, finished: Seq<ChunkState>)
    requires
        meta.chunk_size > 0,
        meta.chunk_count == chunks_needed(meta.total_size as int, meta.chunk_size as int),
        forall|i: int| 0 <= i < fresh.len() ==> (#[trigger] fresh[i]).received == 0 && !fresh[i].done,
        finished.len() == meta.chunk_count,
        forall|i: int| 0 <= i < finished.len() ==> (#[trigger] finished[i]).done
            && finished[i].size == chunk_len(i, meta.chunk_size as int, meta.total_size as int),
    ensures
        completed_sum(fresh) == 0,
        completed_sum(finished) == meta.total_size,
{
    lemma_fresh_zero(fresh);
    lemma_completed_all_done(finished, meta);
    chunk_layout_covers_file(meta.total_size, meta.chunk_size);
}

proof fn lemma_fresh_zero(s: Seq<ChunkState>)
    requires
        forall|i: int| 0 <= i < s.len() ==> (#[trigger] s[i]).received == 0 && !s[i].done,
    ensures
        completed_sum(s) == 0,
    decreases s.len(),
{
    if s.len() > 0 {
        let t = s.drop_last();
        assert forall|i: int| 0 <= i < t.len() implies (#[trigger] t[i]).received == 0 && !t[i].done by {
            assert(t[i] == s[i]);
        }
        lemma_fresh_zero(t);
        assert(s.last() == s[s.len() - 1]);
    }
}

/// Chunks each stream takes: `chunk_count` shared over at least one stream.
pub open spec fn chunks_per_stream(chunk_count: u64, parallel_streams: u64) -> int {
    chunks_needed(chunk_count as int, if parallel_streams == 0 { 1 } else { parallel_streams as int })
}

/// The chunk ranges fit in `u64` arithmetic.
pub open spec fn stream_plan_fits(chunk_count: u64, parallel_streams: u64) -> bool {
    chunk_count + chunks_per_stream(chunk_count, parallel_streams) <= u64::MAX
}

/// The half-open chunk ranges `[start, end)` given to the receiving streams:
/// stream `s` takes `s * per .. min((s + 1) * per, chunk_count)` where `per`
/// is `chunk_count` divided by the number of streams (at least one),
/// rounded up; streams whose range would start past the last chunk are not
/// started. Together the ranges cover every chunk exactly once, in order.
pub fn stream_ranges(chunk_count: u64, parallel_streams: u64) -> (ranges: Vec<(u64, u64)>)
    requires
        stream_plan_fits(chunk_count, parallel_streams),
    ensures
        ranges@.len() <= if parallel_streams == 0 { 1 } else { parallel_streams as int },
        forall|k: int| 0 <= k < ranges@.len() ==> (#[trigger] ranges@[k]).0 == k * chunks_per_stream(chunk_count, parallel_streams),
        forall|k: int| 0 <= k < ranges@.len() ==> (#[trigger] ranges@[k]).0 < ranges@[k].1,
        forall|k: int| 0 <= k < ranges@.len() - 1 ==> (#[trigger] ranges@[k]).1 == ranges@[k + 1].0,
        chunk_count == 0 <==> ranges@.len() == 0,
        chunk_count > 0 ==> ranges@[0].0 == 0 && ranges@[ranges@.len() - 1].1 == chunk_count,
        forall|k: int| 0 <= k < ranges@.len() ==> (#[trigger] ranges@[k]).1 == (if (k + 1) * chunks_per_stream(
            chunk_count,
            parallel_streams,
        ) <= chunk_count {
            (k + 1) * chunks_per_stream(chunk_count, parallel_streams)
        } else {
            chunk_count as int
        }),
        chunk_count > 0 ==> ranges@.len() == chunks_needed(chunk_count as int, chunks_per_stream(chunk_count, parallel_streams)),
{
    let n: u64 = if parallel_streams == 0 { 1 } else { parallel_streams };
    let per: u64 = div_ceil(chunk_count, n);
    proof {
        lemma_chunks_needed(chunk_count as int, n as int);
    }
    let mut ranges: Vec<(u64, u64)> = Vec::new();
    let mut s: u64 = 0;
    let mut start: u64 = 0;
    while s < n
        invariant
            n == (if parallel_streams == 0 { 1 } else { parallel_streams as int }),
            n >= 1,
            per == chunks_per_stream(chunk_count, parallel_streams),
            per * n >= chunk_count,
            chunk_count + per <= u64::MAX,
            s <= n,
            start == s * per,
            start <= chunk_count + per,
            s > 0 ==> (s - 1) * per < chunk_count,
            ranges@.len() == s,
            forall|k: int| 0 <= k < s ==> (#[trigger] ranges@[k]).0 == k * per
                && ranges@[k].1 == (if (k + 1) * per <= chunk_count { (k + 1) * per } else { chunk_count as int }),
            forall|k: int| 0 <= k < s ==> (#[trigger] ranges@[k]).0 < chunk_count,
        ensures
            start >= chunk_count || s == n,
        decreases n - s,
    {
        if start >= chunk_count {
            break;
        }
        let next: u64 = start + per;
        let end: u64 = if next < chunk_count { next } else { chunk_count };
        ranges.push((start, end));
        assert(next == (s + 1) * per) by (nonlinear_arith)
            requires
                start == s * per,
                next == start + per,
        ;
        s = s + 1;
        start = next;
    }
    proof {
        let m = ranges@.len() as int;
        if chunk_count > 0 {
            assert(per >= 1) by (nonlinear_arith)
                requires
                    per * n >= chunk_count,
                    chunk_count > 0,
                    n >= 1,
            ;
            assert(ranges@[0].0 == 0) by {
                assert(start >= chunk_count || s == n);
                if m == 0 {
                    assert(start == 0);
                }
                assert(0 * per == 0);
            }
            assert(m >= 1) by {
                if m == 0 {
                    assert(start == 0);
                }
            }
            assert(m * per >= chunk_count) by (nonlinear_arith)
                requires
                    start == m * per,
                    start >= chunk_count || m == n,
                    per * n >= chunk_count,
            ;
            assert(ranges@[m - 1].1 == chunk_count);
            assert((m - 1) * per < chunk_count);
            assert(m == chunks_needed(chunk_count as int, per as int)) by (nonlinear_arith)
                requires
                    per >= 1,
                    m >= 1,
                    (m - 1) * per < chunk_count,
                    m * per >= chunk_count,
            {
                let c = chunk_count as int;
                let p = per as int;
                let q = c / p;
                let r = c % p;
                assert(c == q * p + r);
                assert(0 <= r < p);
                if r == 0 {
                    assert(m * p >= q * p);
                    assert((m - 1) * p < q * p);
                    assert(m >= q);
                    assert(m - 1 < q);
                } else {
                    assert((m - 1) * p < q * p + r);
                    assert(m * p >= q * p + r);
                    assert(m - 1 <= q);
                    assert(m > q);
                }
            }
        } else {
            assert(0 * per == 0);
        }
        assert forall|k: int| 0 <= k < m - 1 implies (#[trigger] ranges@[k]).1 == ranges@[k + 1].0 by {
            assert((k + 1) * per == ranges@[k + 1].0);
        }
        assert forall|k: int| 0 <= k < m implies (#[trigger] ranges@[k]).0 < ranges@[k].1 by {
            assert((k + 1) * per == k * per + per) by (nonlinear_arith);
        }
    }
    ranges
}

/// Where a sender reads a requested chunk: its bounds in the file, the
/// position the requested resume offset points to, and the bytes left to
/// send from there.
#[derive(Clone, Copy, Debug, PartialEq, Eq, Structural)]
pub struct ChunkSpan {
    pub chunk_start: u64,
    pub chunk_end: u64,
    pub file_offset: u64,
    pub remaining: u64,
}

/// The span arithmetic stays within `u64`.
pub open spec fn span_fits(file_size: u64, chunk_index: u64, resume_offset: u64) -> bool {
    &&& (chunk_index + 1) * chunk_size_spec(file_size) <= u64::MAX
    &&& chunk_index * chunk_size_spec(file_size) + resume_offset <= u64::MAX
}

/// The span of chunk `chunk_index` of a file of `file_size` bytes when the
/// receiver already holds `resume_offset` bytes of it.
pub fn chunk_span(file_size: u64, chunk_index: u64, resume_offset: u64) -> (sp: ChunkSpan)
    requires
        span_fits(file_size, chunk_index, resume_offset),
    ensures
        sp.chunk_start == chunk_index * chunk_size_spec(file_size),
        sp.chunk_end == if (chunk_index + 1) * chunk_size_spec(file_size) <= file_size {
            (chunk_index + 1) * chunk_size_spec(file_size)
        } else {
            file_size as int
        },
        sp.file_offset == sp.chunk_start + resume_offset,
        sp.remaining == if sp.chunk_end >= sp.file_offset { sp.chunk_end - sp.file_offset } else { 0 },
{
    let cs: u64 = chunk_size_for(file_size);
    assert(chunk_index * cs <= (chunk_index + 1) * cs) by (nonlinear_arith)
        requires
            cs >= 0,
    ;
    let chunk_start: u64 = chunk_index * cs;
    let upper: u64 = (chunk_index + 1) * cs;
    let chunk_end: u64 = if upper < file_size { upper } else { file_size };
    let file_offset: u64 = chunk_start + resume_offset;
    let remaining: u64 = if chunk_end >= file_offset { chunk_end - file_offset } else { 0 };
    ChunkSpan { chunk_start, chunk_end, file_offset, remaining }
}

/// The receiver's bounds of chunk `chunk_index` can be computed.
pub open spec fn bounds_fit(meta: TransferMeta, chunk_index: u64) -> bool {
    &&& chunk_index * meta.chunk_size <= meta.total_size
    &&& chunk_index * meta.chunk_size + meta.chunk_size <= u64::MAX
}

/// Start, end and length of chunk `chunk_index` as the receiver computes them.
pub fn chunk_bounds(meta: &TransferMeta, chunk_index: u64) -> (b: (u64, u64, u64))
    requires
        bounds_fit(*meta, chunk_index),
    ensures
        b.0 == chunk_index * meta.chunk_size,
        b.1 == if b.0 + meta.chunk_size <= meta.total_size { b.0 + meta.chunk_size } else { meta.total_size as int },
        b.2 == b.1 - b.0,
        b.2 == chunk_len(chunk_index as int, meta.chunk_size as int, meta.total_size as int),
{
    let start: u64 = chunk_index * meta.chunk_size;
    let upper: u64 = start + meta.chunk_size;
    let end: u64 = if upper < meta.total_size { upper } else { meta.total_size };
    (start, end, end - start)
}

/// What a receiving stream does next with a chunk.
#[derive(Clone, Copy, Debug, PartialEq, Eq, Structural)]
pub enum ChunkAction {
    /// Already verified; move on.
    AlreadyDone,
    /// Every byte is on disk already; check it there before asking again.
    CheckOnDisk,
    /// Ask the sender for the chunk from `resume_from`, `remaining` bytes.
    Fetch { resume_from: u64, remaining: u64 },
}

/// The next step for a chunk of `size` bytes given its record.
pub open spec fn chunk_plan_spec(c: ChunkState, size: u64) -> ChunkAction {
    if c.done {
        ChunkAction::AlreadyDone
    } else if c.received == size {
        ChunkAction::CheckOnDisk
    } else {
        ChunkAction::Fetch { resume_from: c.received, remaining: (size - c.received) as u64 }
    }
}

/// The next step for a chunk of `size` bytes given its record.
pub fn plan_chunk(c: &ChunkState, size: u64) -> (a: ChunkAction)
    requires
        c.done || c.received <= size,
    ensures
        a == chunk_plan_spec(*c, size),
{
    if c.done {
        ChunkAction::AlreadyDone
    } else if c.received == size {
        ChunkAction::CheckOnDisk
    } else {
        fetch_plan(c.received, size)
    }
}

/// A dropped transfer continues exactly where it left off: once the bytes
/// received of an unfinished chunk are recorded, the next plan for that
/// chunk asks for the rest from that point; a finished chunk is never
/// fetched again.
pub proof fn resume_continues_where_it_left_off(states: Seq<ChunkState>, idx: int, received: u64, size: u64)
    requires
        0 <= idx < states.len(),
        !states[idx].done,
        received < size,
    ensures
        ({
            let after = states.update(idx, ChunkState { received, ..states[idx] });
            chunk_plan_spec(after[idx], size) == (ChunkAction::Fetch { resume_from: received, remaining: (size - received) as u64 })
        }),
        ({
            let done = states.update(idx, ChunkState { done: true, received: size, ..states[idx] });
            chunk_plan_spec(done[idx], size) == ChunkAction::AlreadyDone
        }),
{
}

/// A fetch of a chunk of `size` bytes of which `received` are held.
pub fn fetch_plan(received: u64, size: u64) -> (a: ChunkAction)
    requires
        received <= size,
    ensures
        a == (ChunkAction::Fetch { resume_from: received, remaining: (size - received) as u64 }),
{
    ChunkAction::Fetch { resume_from: received, remaining: size - received }
}

/// Records that `received` bytes of chunk `idx` are on disk.
pub fn record_progress(states: &mut Vec<ChunkState>, idx: u64, received: u64)
    requires
        idx < old(states)@.len(),
    ensures
        final(states)@ == old(states)@.update(idx as int, ChunkState { received, ..old(states)@[idx as int] }),
{
    let i: usize = idx as usize;
    let c = ChunkState {
        index: states[i].index,
        offset: states[i].offset,
        size: states[i].size,
        received,
        checksum: states[i].checksum.clone(),
        done: states[i].done,
    };
    states.set(i, c);
}

/// Records chunk `idx` as verified: all `size` bytes held, with `checksum`.
pub fn mark_chunk_done(states: &mut Vec<ChunkState>, idx: u64, size: u64, checksum: String)
    requires
        idx < old(states)@.len(),
    ensures
        final(states)@ == old(states)@.update(
            idx as int,
            ChunkState { done: true, received: size, checksum, ..old(states)@[idx as int] },
        ),
{
    let i: usize = idx as usize;
    let c = ChunkState {
        index: states[i].index,
        offset: states[i].offset,
        size: states[i].size,
        received: size,
        checksum,
        done: true,
    };
    states.set(i, c);
}

/// Settles chunk `idx` after its last byte: when the checksum the sender
/// sent equals the one computed here the chunk is finished; otherwise its
/// bytes are discarded (nothing held, not finished) so it is fetched again.
/// Returns whether the chunk was accepted.
pub fn settle_chunk(states: &mut Vec<ChunkState>, idx: u64, size: u64, expected: &str, actual: String) -> (accepted: bool)
    requires
        idx < old(states)@.len(),
    ensures
        accepted == (expected@ == actual@),
        accepted ==> final(states)@ == old(states)@.update(
            idx as int,
            ChunkState { done: true, received: size, checksum: actual, ..old(states)@[idx as int] },
        ),
        !accepted ==> final(states)@ == old(states)@.update(
            idx as int,
            ChunkState { done: false, received: 0, ..old(states)@[idx as int] },
        ),
{
    if str_eq(expected, actual.as_str()) {
        mark_chunk_done(states, idx, size, actual);
        true
    } else {
        let i: usize = idx as usize;
        let c = ChunkState {
            index: states[i].index,
            offset: states[i].offset,
            size: states[i].size,
            received: 0,
            checksum: states[i].checksum.clone(),
            done: false,
        };
        states.set(i, c);
        false
    }
}

/// Counts the bytes written since the chunk table was last saved; the
/// table is saved every `SAVE_INTERVAL_BYTES`.
#[derive(Clone, Copy, Debug, PartialEq, Eq, Structural)]
pub struct SaveTicker {
    pub since_last_save: u64,
}

impl SaveTicker {
    pub fn new() -> (t: SaveTicker)
        ensures
            t.since_last_save == 0,
    {
        SaveTicker { since_last_save: 0 }
    }

    /// `n` more bytes were written; answers whether to save the table now,
    /// in which case the count starts again.
    pub fn wrote(&mut self, n: u64) -> (save: bool)
        requires
            old(self).since_last_save + n <= u64::MAX,
        ensures
            save == (old(self).since_last_save + n >= SAVE_INTERVAL_BYTES),
            save ==> final(self).since_last_save == 0,
            !save ==> final(self).since_last_save == old(self).since_last_save + n,
    {
        self.since_last_save = self.since_last_save + n;
        if self.since_last_save >= SAVE_INTERVAL_BYTES {
            self.since_last_save = 0;
            true
        } else {
            false
        }
    }
}

/// Why a transfer failed.
#[derive(Clone, Copy, Debug, PartialEq, Eq, Structural)]
pub enum TransferError {
    /// A stream used up its attempts.
    TooManyRetries,
    /// The assembled file does not have the announced checksum.
    ChecksumMismatch,
}

/// Counts the attempts of one receiving stream.
#[derive(Clone, Copy, Debug, PartialEq, Eq, Structural)]
pub struct RetryCounter {
    pub attempt: u32,
}

impl RetryCounter {
    pub fn new() -> (r: RetryCounter)
        ensures
            r.attempt == 0,
    {
        RetryCounter { attempt: 0 }
    }

    /// Starts the next attempt. Refused once `RETRY_ATTEMPTS` attempts were
    /// made; otherwise answers whether this is a retry (which waits first).
    pub fn begin_attempt(&mut self) -> (r: Result<bool, TransferError>)
        requires
            old(self).attempt <= RETRY_ATTEMPTS,
        ensures
            final(self).attempt == old(self).attempt + 1,
            r is Ok <==> final(self).attempt <= RETRY_ATTEMPTS,
            r matches Ok(retry) ==> retry == (final(self).attempt > 1),
            r is Err ==> r == Err::<bool, TransferError>(TransferError::TooManyRetries),
    {
        self.attempt = self.attempt + 1;
        if self.attempt > RETRY_ATTEMPTS {
            Err(TransferError::TooManyRetries)
        } else {
            Ok(self.attempt > 1)
        }
    }
}

/// Accepts the assembled file only if its checksum is the announced one.
pub fn verify_file_checksum(expected: &str, actual: &str) -> (r: Result<(), TransferError>)
    ensures
        r is Ok <==> expected@ == actual@,
        r is Err ==> r == Err::<(), TransferError>(TransferError::ChecksumMismatch),
{
    if str_eq(expected, actual) {
        Ok(())
    } else {
        Err(TransferError::ChecksumMismatch)
    }
}

/// Name of the file that holds the bytes received so far.
pub fn partial_file_name(filename: &str) -> (s: String)
    ensures
        s@ == filename@ + ".punch_partial"@,
{
    let mut s = String::new();
    push_all(&mut s, filename);
    push_all(&mut s, ".punch_partial");
    assert(Seq::<char>::empty() + filename@ =~= filename@);
    s
}

/// Name of the file that holds the chunk table while a transfer runs.
pub fn state_file_name(filename: &str) -> (s: String)
    ensures
        s@ == filename@ + ".punch_state"@,
{
    let mut s = String::new();
    push_all(&mut s, filename);
    push_all(&mut s, ".punch_state");
    assert(Seq::<char>::empty() + filename@ =~= filename@);
    s
}

} // verus!
