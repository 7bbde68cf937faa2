//! The per-service log tailer's core: a byte cursor over a growing
//! file, truncation detection, and the splitting of raw chunks into
//! complete lines.  The file reads themselves happen outside; the
//! watcher is handed the observed file size and the bytes read and
//! answers with what to do next.

use vstd::prelude::*;

verus! {

/// Cursor state of one watched log file.
pub struct LogWatcher {
    pub service: String,
    pub path: String,
    pub position: u64,
}

impl LogWatcher {
    /// A fresh watcher at the start of the file.
    pub fn new(path: String, service: String) -> (w: LogWatcher)
        ensures
            w.path@ == path@,
            w.service@ == service@,
            w.position == 0,
    {
        LogWatcher { service, path, position: 0 }
    }

    /// Position the cursor for the first read: at the end when
    /// following (only new lines are emitted), at the start otherwise.
    pub fn start_at(&mut self, follow: bool, file_size: u64)
        ensures
            final(self).position == (if follow { file_size } else { 0 }),
            final(self).path@ == old(self).path@,
            final(self).service@ == old(self).service@,
    {
        self.position = if follow { file_size } else { 0 };
    }

    /// Note that `n` more bytes were consumed from the file.
    pub fn advance(&mut self, n: u64)
        requires
            old(self).position + n <= u64::MAX,
        ensures
            final(self).position == old(self).position + n,
            final(self).path@ == old(self).path@,
            final(self).service@ == old(self).service@,
    {
        self.position = self.position + n;
    }

    /// Compare the file's reported size against the cursor.  A size
    /// below the cursor means the file was truncated or rotated: the
    /// cursor is reset to zero so no stale offset is read against new
    /// content, and the caller must reopen the file.
    pub fn observe_size(&mut self, current_size: u64) -> (reopen: bool)
        ensures
            reopen == (current_size < old(self).position),
            final(self).position == (if reopen { 0 } else { old(self).position }),
            final(self).path@ == old(self).path@,
            final(self).service@ == old(self).service@,
    {
        if current_size < self.position {
            self.position = 0;
            true
        } else {
            false
        }
    }
}

/// Leftmost newline byte at or after position `i`.
pub open spec fn first_nl_from(b: Seq<u8>, i: int) -> Option<int>
    decreases b.len() - i when 0 <= i
{
    if i >= b.len() {
        None
    } else if b[i] == 10 {
        Some(i)
    } else {
        first_nl_from(b, i + 1)
    }
}

/// The complete lines of a byte chunk (terminators removed) and the
/// unterminated leftover.
pub open spec fn split_lines_spec(b: Seq<u8>) -> (Seq<Seq<u8>>, Seq<u8>)
    decreases b.len(),
{
    match first_nl_from(b, 0) {
        Some(i) => if 0 <= i < b.len() {
            let rest = split_lines_spec(b.subrange(i + 1, b.len() as int));
            (seq![b.subrange(0, i)] + rest.0, rest.1)
        } else {
            (Seq::empty(), b)
        },
        None => (Seq::empty(), b),
    }
}

proof fn lemma_first_nl_hit(b: Seq<u8>, a: int, k: int)
    requires
        0 <= a <= k < b.len(),
        b[k] == 10,
        forall|j: int| a <= j < k ==> b[j] != 10,
    ensures
        first_nl_from(b, a) == Some(k),
    decreases k - a,
{
    if a < k {
        lemma_first_nl_hit(b, a + 1, k);
    }
}

proof fn lemma_first_nl_miss(b: Seq<u8>, a: int)
    requires
        0 <= a,
        forall|j: int| a <= j < b.len() ==> b[j] != 10,
    ensures
        first_nl_from(b, a) is None,
    decreases b.len() - a,
{
    if a < b.len() {
        lemma_first_nl_miss(b, a + 1);
    }
}

/// Split a chunk of bytes into its complete lines; the second result
/// is how many bytes were consumed — everything after it is an
/// unterminated tail that stays in the file buffer.
pub fn drain_lines(chunk: &Vec<u8>) -> (r: (Vec<Vec<u8>>, usize))
    ensures
        r.0.deep_view() == split_lines_spec(chunk@).0,
        r.1 <= chunk@.len(),
        chunk@.subrange(r.1 as int, chunk@.len() as int) == split_lines_spec(chunk@).1,
{
    let n = chunk.len();
    let mut lines: Vec<Vec<u8>> = Vec::new();
    let mut start: usize = 0;
    assert(chunk@.subrange(0, n as int) =~= chunk@);
    while start < n
        invariant
            n == chunk@.len(),
            0 <= start <= n,
            split_lines_spec(chunk@).0 =~~= lines.deep_view() + split_lines_spec(
                chunk@.subrange(start as int, n as int),
            ).0,
            split_lines_spec(chunk@).1 == split_lines_spec(
                chunk@.subrange(start as int, n as int),
            ).1,
        decreases n - start,
    {
        let ghost suffix = chunk@.subrange(start as int, n as int);
        let mut j: usize = start;
        while j < n && chunk[j] != 10
            invariant
                n == chunk@.len(),
                start <= j <= n,
                forall|k: int| start <= k < j ==> chunk@[k] != 10,
            decreases n - j,
        {
            j = j + 1;
        }
        if j == n {
            proof {
                assert forall|k: int| 0 <= k < suffix.len() implies suffix[k] != 10 by {
                    assert(suffix[k] == chunk@[start + k]);
                }
                lemma_first_nl_miss(suffix, 0);
                assert(split_lines_spec(suffix).0 =~= Seq::<Seq<u8>>::empty());
                assert(lines.deep_view() + Seq::<Seq<u8>>::empty() =~~= lines.deep_view());
            }
            return (lines, start);
        }
        proof {
            assert(suffix[j - start] == chunk@[j as int]);
            assert forall|k: int| 0 <= k < j - start implies suffix[k] != 10 by {
                assert(suffix[k] == chunk@[start + k]);
            }
            lemma_first_nl_hit(suffix, 0, j - start);
        }
        let mut line: Vec<u8> = Vec::new();
        let mut p: usize = start;
        while p < j
            invariant
                n == chunk@.len(),
                start <= p <= j <= n,
                line@ =~= chunk@.subrange(start as int, p as int),
            decreases j - p,
        {
            line.push(chunk[p]);
            assert(line@ =~= chunk@.subrange(start as int, p + 1));
            p = p + 1;
        }
        proof {
            assert(line@ =~= suffix.subrange(0, j - start));
            assert(suffix.subrange(j - start + 1, suffix.len() as int) =~= chunk@.subrange(
                j + 1,
                n as int,
            ));
        }
        let ghost prev = lines.deep_view();
        lines.push(line);
        proof {
            assert(lines.deep_view() =~~= prev.push(line@));
            assert(prev.push(line@) =~= prev + seq![line@]);
        }
        start = j + 1;
    }
    proof {
        let tail = chunk@.subrange(start as int, n as int);
        assert(tail =~= Seq::<u8>::empty());
        lemma_first_nl_miss(tail, 0);
        assert(split_lines_spec(tail).0 =~= Seq::<Seq<u8>>::empty());
        assert(lines.deep_view() + Seq::<Seq<u8>>::empty() =~~= lines.deep_view());
    }
    (lines, start)
}

} // verus!
