//! Bookkeeping of a streamed multi-file upload. The caller reads parts and
//! chunks from the request and writes them to disk; the batch decides where
//! each part goes and records, for every part, whether it was written in
//! full. A failed part never stops the ones after it.

use vstd::prelude::*;
use crate::listing::PathKind;
use crate::paths::{child, is_inside, is_plain_name, resolved_result, ConfinedPath, ResolvedPath};
use crate::text::{decimal, push_decimal, push_str, string_of};
use crate::types::ReplyView;
use crate::types::{JsonResponse, OpError};

verus! {

/// The result of one uploaded part.
#[derive(Clone, Debug)]
pub struct UploadOutcome {
    pub file_name: String,
    pub bytes_written: u64,
    pub success: bool,
    pub error: Option<OpError>,
}

/// The part being written: its name, the bytes written so far, and whether
/// a write failed.
pub struct PartView {
    pub name: Seq<char>,
    pub written: Seq<u8>,
    pub failed: bool,
}

/// A finished part: its name, whether it was written in full, why not, and
/// the bytes that reached its file.
pub struct RecordView {
    pub name: Seq<char>,
    pub success: bool,
    pub error: Option<OpError>,
    pub written: Seq<u8>,
}

/// The state of a batch: its target directory, the finished parts in
/// order, and the part in progress.
pub struct BatchView {
    pub dir: Seq<char>,
    pub records: Seq<RecordView>,
    pub current: Option<PartView>,
}

/// An outcome reports a record.
pub open spec fn reports(o: UploadOutcome, r: RecordView) -> bool {
    &&& o.file_name@ == r.name
    &&& o.bytes_written == r.written.len()
    &&& o.success == r.success
    &&& o.error == r.error
}

/// A batch into `dir` before any part.
pub open spec fn started(dir: Seq<char>) -> BatchView {
    BatchView { dir, records: Seq::empty(), current: None }
}

/// The record of a part refused before anything was written.
pub open spec fn refused(name: Seq<char>, e: OpError) -> RecordView {
    RecordView { name, success: false, error: Some(e), written: Seq::empty() }
}

/// The part in progress, if any, is finished and recorded.
pub open spec fn after_end(s: BatchView) -> BatchView {
    match s.current {
        Some(p) => BatchView {
            dir: s.dir,
            records: s.records.push(
                RecordView {
                    name: p.name,
                    success: !p.failed,
                    error: if p.failed {
                        Some(OpError::IoFailure)
                    } else {
                        None
                    },
                    written: p.written,
                },
            ),
            current: None,
        },
        None => s,
    }
}

/// A new part named `name` begins, after the one in progress is finished:
/// refused and recorded at once when it has no name or its name is not one
/// plain segment.
pub open spec fn after_begin(s: BatchView, name: Option<Seq<char>>) -> BatchView {
    let e = after_end(s);
    match name {
        None => BatchView {
            dir: e.dir,
            records: e.records.push(refused(Seq::empty(), OpError::MissingFileName)),
            current: None,
        },
        Some(n) => if is_plain_name(n) {
            BatchView {
                dir: e.dir,
                records: e.records,
                current: Some(PartView { name: n, written: Seq::empty(), failed: false }),
            }
        } else {
            BatchView { dir: e.dir, records: e.records.push(refused(n, OpError::InvalidName)), current: None }
        },
    }
}

/// Where a part named `name` is written, or why it is refused.
pub open spec fn destination(s: BatchView, name: Option<Seq<char>>) -> Result<Seq<char>, OpError> {
    match name {
        None => Err(OpError::MissingFileName),
        Some(n) => child(s.dir, n),
    }
}

/// A chunk was written to the part in progress; a part whose length would
/// no longer fit in 64 bits fails instead.
pub open spec fn after_chunk(s: BatchView, chunk: Seq<u8>) -> BatchView {
    match s.current {
        Some(p) => if p.failed {
            s
        } else if p.written.len() + chunk.len() > u64::MAX {
            BatchView { dir: s.dir, records: s.records, current: Some(PartView { name: p.name, written: p.written, failed: true }) }
        } else {
            BatchView {
                dir: s.dir,
                records: s.records,
                current: Some(PartView { name: p.name, written: p.written + chunk, failed: false }),
            }
        },
        None => s,
    }
}

/// Creating or writing the part's file failed: the part is abandoned, and
/// what reached the file stays there.
pub open spec fn after_failure(s: BatchView) -> BatchView {
    match s.current {
        Some(p) => BatchView {
            dir: s.dir,
            records: s.records,
            current: Some(PartView { name: p.name, written: p.written, failed: true }),
        },
        None => s,
    }
}

/// The number of records that succeeded.
pub open spec fn successes(records: Seq<RecordView>) -> nat
    decreases records.len(),
{
    if records.len() == 0 {
        0
    } else {
        successes(records.drop_last()) + if records.last().success {
            1nat
        } else {
            0nat
        }
    }
}

/// The view of an optional name.
pub open spec fn name_view(n: Option<String>) -> Option<Seq<char>> {
    match n {
        Some(s) => Some(s@),
        None => None,
    }
}

/// The summary of a batch: success when every finished part was written in
/// full, with the count of those that were.
pub open spec fn batch_reply(records: Seq<RecordView>) -> ReplyView {
    let ok = successes(records);
    if ok == records.len() {
        ReplyView { succeeded: true, msg: Some(decimal(ok) + " file(s) uploaded!"@) }
    } else {
        ReplyView {
            succeeded: false,
            msg: Some(
                decimal(ok) + " file(s) uploaded, "@ + decimal((records.len() - ok) as nat)
                    + " failed"@,
            ),
        }
    }
}

/// All chunks, in order, as one byte sequence.
pub open spec fn concat_chunks(chunks: Seq<Seq<u8>>) -> Seq<u8>
    decreases chunks.len(),
{
    if chunks.len() == 0 {
        Seq::empty()
    } else {
        concat_chunks(chunks.drop_last()) + chunks.last()
    }
}

/// The batch after each of `chunks` was written in turn.
pub open spec fn after_chunks(s: BatchView, chunks: Seq<Seq<u8>>) -> BatchView
    decreases chunks.len(),
{
    if chunks.len() == 0 {
        s
    } else {
        after_chunk(after_chunks(s, chunks.drop_last()), chunks.last())
    }
}

/// The batch after a part named `name` began, `chunks` were written to it,
/// then, when `fails`, a write failed, and the part ended.
pub open spec fn upload_part(s: BatchView, name: Seq<char>, chunks: Seq<Seq<u8>>, fails: bool) -> BatchView {
    let w = after_chunks(after_begin(s, Some(name)), chunks);
    after_end(
        if fails {
            after_failure(w)
        } else {
            w
        },
    )
}

/// The record of a part named `name` that received `chunks`.
pub open spec fn part_record(name: Seq<char>, chunks: Seq<Seq<u8>>, fails: bool) -> RecordView {
    RecordView {
        name,
        success: !fails,
        error: if fails {
            Some(OpError::IoFailure)
        } else {
            None
        },
        written: concat_chunks(chunks),
    }
}

proof fn lemma_after_chunks(s: BatchView, chunks: Seq<Seq<u8>>)
    requires
        s.current matches Some(p) && !p.failed && p.written.len() + concat_chunks(chunks).len()
            <= u64::MAX,
    ensures
        after_chunks(s, chunks) == (BatchView {
            dir: s.dir,
            records: s.records,
            current: Some(
                PartView {
                    name: s.current->0.name,
                    written: s.current->0.written + concat_chunks(chunks),
                    failed: false,
                },
            ),
        }),
    decreases chunks.len(),
{
    let p = s.current->0;
    if chunks.len() == 0 {
        assert(p.written + concat_chunks(chunks) =~= p.written);
    } else {
        lemma_after_chunks(s, chunks.drop_last());
        assert(p.written + concat_chunks(chunks.drop_last()) + chunks.last() =~= p.written
            + concat_chunks(chunks));
    }
}

proof fn lemma_upload_part(s: BatchView, name: Seq<char>, chunks: Seq<Seq<u8>>, fails: bool)
    requires
        is_plain_name(name),
        concat_chunks(chunks).len() <= u64::MAX,
    ensures
        upload_part(s, name, chunks, fails) == (BatchView {
            dir: s.dir,
            records: after_end(s).records.push(part_record(name, chunks, fails)),
            current: None,
        }),
{
    let b = after_begin(s, Some(name));
    lemma_after_chunks(b, chunks);
    assert(Seq::<u8>::empty() + concat_chunks(chunks) =~= concat_chunks(chunks));
}

/// Upload completeness: a single part of N bytes, sent as any sequence of
/// chunks that are all written, ends as the one record of the batch, a
/// success whose file holds exactly those N bytes in order.
pub proof fn lemma_single_upload_complete(dir: Seq<char>, name: Seq<char>, chunks: Seq<Seq<u8>>)
    requires
        is_plain_name(name),
        concat_chunks(chunks).len() <= u64::MAX,
    ensures
        upload_part(started(dir), name, chunks, false).records == seq![
            RecordView { name, success: true, error: None, written: concat_chunks(chunks) },
        ],
        upload_part(started(dir), name, chunks, false).current is None,
        batch_reply(upload_part(started(dir), name, chunks, false).records).succeeded,
{
    lemma_upload_part(started(dir), name, chunks, false);
    let r = upload_part(started(dir), name, chunks, false).records;
    assert(r =~= seq![part_record(name, chunks, false)]);
    assert(r.drop_last() =~= Seq::<RecordView>::empty());
    assert(successes(r.drop_last()) == 0);
    assert(successes(r) == 1);
}

/// Partial-batch isolation: in a batch of three parts where a write of the
/// second one fails, the first and third are recorded as written in full
/// and the second alone as failed, with the bytes written before the failure
/// left in its file.
pub proof fn lemma_failed_part_is_isolated(
    dir: Seq<char>,
    names: (Seq<char>, Seq<char>, Seq<char>),
    first: Seq<Seq<u8>>,
    second: Seq<Seq<u8>>,
    third: Seq<Seq<u8>>,
)
    requires
        is_plain_name(names.0),
        is_plain_name(names.1),
        is_plain_name(names.2),
        concat_chunks(first).len() <= u64::MAX,
        concat_chunks(second).len() <= u64::MAX,
        concat_chunks(third).len() <= u64::MAX,
    ensures
        ({
            let s = upload_part(
                upload_part(upload_part(started(dir), names.0, first, false), names.1, second, true),
                names.2,
                third,
                false,
            );
            &&& s.records == seq![
                part_record(names.0, first, false),
                part_record(names.1, second, true),
                part_record(names.2, third, false),
            ]
            &&& s.records[0].success && s.records[0].written == concat_chunks(first)
            &&& !s.records[1].success && s.records[1].error == Some(OpError::IoFailure)
            &&& s.records[2].success && s.records[2].written == concat_chunks(third)
            &&& successes(s.records) == 2
        }),
{
    let s1 = upload_part(started(dir), names.0, first, false);
    lemma_upload_part(started(dir), names.0, first, false);
    let s2 = upload_part(s1, names.1, second, true);
    lemma_upload_part(s1, names.1, second, true);
    let s3 = upload_part(s2, names.2, third, false);
    lemma_upload_part(s2, names.2, third, false);
    let r = s3.records;
    assert(r =~= seq![
        part_record(names.0, first, false),
        part_record(names.1, second, true),
        part_record(names.2, third, false),
    ]);
    assert(r.drop_last().drop_last().drop_last() =~= Seq::<RecordView>::empty());
    assert(successes(r.drop_last().drop_last().drop_last()) == 0);
    assert(successes(r.drop_last().drop_last()) == 1);
    assert(successes(r.drop_last()) == 1);
}

struct PartProgress {
    file_name: String,
    bytes: u64,
    failed: bool,
    written: Ghost<Seq<u8>>,
}

/// A multi-file upload into one directory.
pub struct UploadBatch {
    target_dir: ResolvedPath,
    outcomes: Vec<UploadOutcome>,
    written: Ghost<Seq<Seq<u8>>>,
    current: Option<PartProgress>,
}

impl View for UploadBatch {
    type V = BatchView;

    closed spec fn view(&self) -> BatchView {
        BatchView {
            dir: self.target_dir@,
            records: Seq::new(
                self.outcomes@.len(),
                |i: int|
                    RecordView {
                        name: self.outcomes@[i].file_name@,
                        success: self.outcomes@[i].success,
                        error: self.outcomes@[i].error,
                        written: self.written@[i],
                    },
            ),
            current: match self.current {
                Some(p) => Some(PartView { name: p.file_name@, written: p.written@, failed: p.failed }),
                None => None,
            },
        }
    }
}

impl UploadBatch {
    /// The root the target directory lies in.
    pub closed spec fn root(&self) -> Seq<char> {
        self.target_dir.root()
    }

    /// The recorded lengths agree with the bytes written.
    pub closed spec fn wf(&self) -> bool {
        &&& self.written@.len() == self.outcomes@.len()
        &&& forall|i: int|
            0 <= i < self.outcomes@.len() ==> #[trigger] self.outcomes@[i].bytes_written
                == self.written@[i].len()
        &&& self.current matches Some(p) ==> p.bytes == p.written@.len()
    }

    /// Starts an upload into `target_dir`, a path confirmed inside the
    /// root; refused with `TargetMissing` unless a directory is there.
    pub fn new(target_dir: &ConfinedPath, kind: PathKind) -> (r: Result<UploadBatch, OpError>)
        ensures
            r is Ok <==> kind == PathKind::Directory,
            r matches Ok(b) ==> b@ == started(target_dir@) && b.wf() && b.root()
                == target_dir.root(),
            r matches Err(e) ==> e == OpError::TargetMissing,
    {
        if kind != PathKind::Directory {
            return Err(OpError::TargetMissing);
        }
        let b = UploadBatch {
            target_dir: target_dir.resolved().duplicate(),
            outcomes: Vec::new(),
            written: Ghost(Seq::empty()),
            current: None,
        };
        assert(b@.records =~= Seq::<RecordView>::empty());
        Ok(b)
    }

    /// Finishes the part in progress, if any, and records its outcome.
    pub fn end_part(&mut self)
        requires
            old(self).wf(),
        ensures
            final(self).root() == old(self).root(),
            final(self).wf(),
            final(self)@ == after_end(old(self)@),
    {
        let cur = self.current.take();
        match cur {
            Some(p) => {
                let ghost w = p.written@;
                let outcome = UploadOutcome {
                    file_name: p.file_name,
                    bytes_written: p.bytes,
                    success: !p.failed,
                    error: if p.failed {
                        Some(OpError::IoFailure)
                    } else {
                        None
                    },
                };
                self.outcomes.push(outcome);
                self.written = Ghost(self.written@.push(w));
                assert(self@.records =~= after_end(old(self)@).records);
            },
            None => {},
        }
    }

    fn refuse(&mut self, name: String, e: OpError)
        requires
            old(self).wf(),
            old(self).current is None,
        ensures
            final(self).root() == old(self).root(),
            final(self).wf(),
            final(self)@ == (BatchView {
                dir: old(self)@.dir,
                records: old(self)@.records.push(refused(name@, e)),
                current: None,
            }),
    {
        self.outcomes.push(UploadOutcome { file_name: name, bytes_written: 0, success: false, error: Some(e) });
        self.written = Ghost(self.written@.push(Seq::empty()));
        assert(self@.records =~= old(self)@.records.push(refused(name@, e)));
    }

    /// Begins a part named `file_name`, after finishing the one in
    /// progress. Returns the path its bytes go to, inside the root; a part
    /// without a name, or whose name is not one plain segment, is refused and
    /// recorded as failed.
    pub fn begin_part(&mut self, file_name: Option<String>) -> (r: Result<ResolvedPath, OpError>)
        requires
            old(self).wf(),
        ensures
            final(self).wf(),
            final(self)@ == after_begin(old(self)@, name_view(file_name)),
            resolved_result(r) == destination(old(self)@, name_view(file_name)),
            r matches Ok(p) ==> p.root() == old(self).root() && is_inside(p.root(), p@),
            final(self).root() == old(self).root(),
    {
        self.end_part();
        match file_name {
            None => {
                self.refuse(String::new(), OpError::MissingFileName);
                Err(OpError::MissingFileName)
            },
            Some(name) => {
                match self.target_dir.child(name.as_str()) {
                    Ok(dest) => {
                        let _ = dest.as_str();
                        self.current = Some(
                            PartProgress { file_name: name, bytes: 0, failed: false, written: Ghost(Seq::empty()) },
                        );
                        Ok(dest)
                    },
                    Err(e) => {
                        self.refuse(name, e);
                        Err(e)
                    },
                }
            },
        }
    }

    /// Whether the part in progress is still being written.
    pub fn is_writing(&self) -> (r: bool)
        ensures
            r == (self@.current matches Some(p) && !p.failed),
    {
        match &self.current {
            Some(p) => !p.failed,
            None => false,
        }
    }

    /// Records that `chunk` was written to the part in progress.
    pub fn record_chunk(&mut self, chunk: &[u8])
        requires
            old(self).wf(),
        ensures
            final(self).root() == old(self).root(),
            final(self).wf(),
            final(self)@ == after_chunk(old(self)@, chunk@),
    {
        let cur = self.current.take();
        match cur {
            Some(p) => {
                if p.failed {
                    self.current = Some(p);
                } else if p.bytes > u64::MAX - (chunk.len() as u64) || chunk.len() as u128 > u64::MAX as u128 {
                    self.current = Some(PartProgress { file_name: p.file_name, bytes: p.bytes, failed: true, written: p.written });
                } else {
                    let ghost w = p.written@ + chunk@;
                    self.current = Some(
                        PartProgress {
                            file_name: p.file_name,
                            bytes: p.bytes + chunk.len() as u64,
                            failed: false,
                            written: Ghost(w),
                        },
                    );
                }
            },
            None => {},
        }
    }

    /// Records that creating or writing the file of the part in progress
    /// failed.
    pub fn record_failure(&mut self)
        requires
            old(self).wf(),
        ensures
            final(self).root() == old(self).root(),
            final(self).wf(),
            final(self)@ == after_failure(old(self)@),
    {
        let cur = self.current.take();
        match cur {
            Some(p) => {
                self.current = Some(PartProgress { file_name: p.file_name, bytes: p.bytes, failed: true, written: p.written });
            },
            None => {},
        }
    }

    /// The outcomes of the finished parts, in order.
    pub fn outcomes(&self) -> (r: &Vec<UploadOutcome>)
        requires
            self.wf(),
        ensures
            r@.len() == self@.records.len(),
            forall|i: int| 0 <= i < r@.len() ==> reports(#[trigger] r@[i], self@.records[i]),
    {
        &self.outcomes
    }

    /// The summary reply for the finished parts.
    pub fn response(&self) -> (r: JsonResponse)
        ensures
            r@ == batch_reply(self@.records),
    {
        let ok = self.succeeded();
        let total = self.outcomes.len();
        let mut msg: Vec<char> = Vec::new();
        push_decimal(&mut msg, ok as u64);
        if ok == total {
            push_str(&mut msg, " file(s) uploaded!");
            JsonResponse::Succeeded { msg: Some(string_of(msg.as_slice())) }
        } else {
            push_str(&mut msg, " file(s) uploaded, ");
            push_decimal(&mut msg, (total - ok) as u64);
            push_str(&mut msg, " failed");
            JsonResponse::Failed { msg: Some(string_of(msg.as_slice())) }
        }
    }

    /// The number of finished parts that were written in full.
    pub fn succeeded(&self) -> (r: usize)
        ensures
            r == successes(self@.records),
            r <= self@.records.len(),
    {
        let n = self.outcomes.len();
        let mut count: usize = 0;
        let mut i: usize = 0;
        while i < n
            invariant
                n == self@.records.len(),
                i <= n,
                count <= i,
                count == successes(self@.records.subrange(0, i as int)),
            decreases n - i,
        {
            proof {
                assert(self@.records.subrange(0, i + 1).drop_last() =~= self@.records.subrange(0, i as int));
            }
            if self.outcomes[i].success {
                count = count + 1;
            }
            i = i + 1;
        }
        assert(self@.records.subrange(0, n as int) =~= self@.records);
        count
    }
}

} // verus!
