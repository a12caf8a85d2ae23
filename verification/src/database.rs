//! The persistent file ledger: one row per discovered path, with probe
//! metadata and a processing status. Insertion is conflict-tolerant (a
//! re-discovered path is left untouched), listing orders rows by size, and
//! status writes are single-row and keep `updated_on` monotone.

use vstd::prelude::*;

use crate::error::TranscodeError;
use crate::ffprobe::{FfProbe, FfProbeV};
use crate::text::str_eq;

verus! {

/// Processing state of one ledger row.
#[derive(Clone, Copy, PartialEq, Eq, Structural, Debug)]
pub enum TranscodeStatus {
    Pending,
    Success,
    Error,
}

/// The stored integer for each status, the versioned mapping used by the
/// persistent store.
pub open spec fn spec_status_code(s: TranscodeStatus) -> int {
    match s {
        TranscodeStatus::Pending => 0,
        TranscodeStatus::Success => 1,
        TranscodeStatus::Error => 2,
    }
}

/// The status a stored integer denotes, if any.
pub open spec fn spec_status_from_code(c: int) -> Option<TranscodeStatus> {
    if c == 0 {
        Some(TranscodeStatus::Pending)
    } else if c == 1 {
        Some(TranscodeStatus::Success)
    } else if c == 2 {
        Some(TranscodeStatus::Error)
    } else {
        None
    }
}

impl TranscodeStatus {
    /// The integer this status is stored as.
    pub fn code(&self) -> (c: i64)
        ensures
            c == spec_status_code(*self),
    {
        match self {
            TranscodeStatus::Pending => 0,
            TranscodeStatus::Success => 1,
            TranscodeStatus::Error => 2,
        }
    }

    /// Reads a stored integer back into a status.
    pub fn from_code(c: i64) -> (r: Option<TranscodeStatus>)
        ensures
            r == spec_status_from_code(c as int),
    {
        if c == 0 {
            Some(TranscodeStatus::Pending)
        } else if c == 1 {
            Some(TranscodeStatus::Success)
        } else if c == 2 {
            Some(TranscodeStatus::Error)
        } else {
            None
        }
    }

    /// The display name of the status.
    pub fn name(&self) -> (n: &'static str)
        ensures
            n@ == spec_status_name(*self),
    {
        match self {
            TranscodeStatus::Pending => "Pending",
            TranscodeStatus::Success => "Success",
            TranscodeStatus::Error => "Error",
        }
    }
}

/// The display name of each status.
pub open spec fn spec_status_name(s: TranscodeStatus) -> Seq<char> {
    match s {
        TranscodeStatus::Pending => "Pending"@,
        TranscodeStatus::Success => "Success"@,
        TranscodeStatus::Error => "Error"@,
    }
}

/// The stored code of a status always reads back as that status.
pub proof fn lemma_status_code_round_trip(s: TranscodeStatus)
    ensures
        spec_status_from_code(spec_status_code(s)) == Some(s),
{
}

/// Spec view of an optional string.
pub open spec fn opt_str_view(o: Option<String>) -> Option<Seq<char>> {
    match o {
        Some(s) => Some(s@),
        None => None,
    }
}

/// One row of the ledger.
pub struct TranscodeFile {
    /// Surrogate identifier assigned by the store; the join key for
    /// status updates.
    pub rowid: i64,
    pub path: String,
    pub status: TranscodeStatus,
    pub created_on: i64,
    pub updated_on: i64,
    pub error_message: Option<String>,
    pub file_size: i64,
    /// Probe metadata; absent until probing has succeeded.
    pub ffprobe_info: Option<FfProbe>,
}

/// Spec view of [`TranscodeFile`].
pub ghost struct TranscodeFileV {
    pub rowid: i64,
    pub path: Seq<char>,
    pub status: TranscodeStatus,
    pub created_on: i64,
    pub updated_on: i64,
    pub error_message: Option<Seq<char>>,
    pub file_size: i64,
    pub ffprobe_info: Option<FfProbeV>,
}

impl View for TranscodeFile {
    type V = TranscodeFileV;

    open spec fn view(&self) -> TranscodeFileV {
        TranscodeFileV {
            rowid: self.rowid,
            path: self.path@,
            status: self.status,
            created_on: self.created_on,
            updated_on: self.updated_on,
            error_message: opt_str_view(self.error_message),
            file_size: self.file_size,
            ffprobe_info: match self.ffprobe_info {
                Some(p) => Some(p@),
                None => None,
            },
        }
    }
}

/// Clones an optional probe report.
fn clone_opt_probe(o: &Option<FfProbe>) -> (r: Option<FfProbe>)
    ensures
        match (o, &r) {
            (Some(a), Some(b)) => a@ == b@,
            (None, None) => true,
            _ => false,
        },
{
    match o {
        Some(p) => Some(p.clone()),
        None => None,
    }
}

/// Clones an optional string.
fn clone_opt_str(o: &Option<String>) -> (r: Option<String>)
    ensures
        opt_str_view(r) == opt_str_view(*o),
{
    match o {
        Some(s) => Some(s.clone()),
        None => None,
    }
}

impl Clone for TranscodeFile {
    fn clone(&self) -> (r: Self)
        ensures
            r@ == self@,
    {
        TranscodeFile {
            rowid: self.rowid,
            path: self.path.clone(),
            status: self.status,
            created_on: self.created_on,
            updated_on: self.updated_on,
            error_message: clone_opt_str(&self.error_message),
            file_size: self.file_size,
            ffprobe_info: clone_opt_probe(&self.ffprobe_info),
        }
    }
}

impl TranscodeFile {
    /// The probe metadata of this row, if probing has succeeded.
    pub fn ffprobe(&self) -> (r: Option<FfProbe>)
        ensures
            match (&r, self@.ffprobe_info) {
                (Some(a), Some(b)) => a@ == b,
                (None, None) => true,
                _ => false,
            },
    {
        clone_opt_probe(&self.ffprobe_info)
    }
}

/// A row to be inserted: a freshly discovered file with its probe report.
pub struct NewTranscodeFile {
    pub path: String,
    pub file_size: u64,
    pub ffprobe_info: FfProbe,
}

/// Spec view of [`NewTranscodeFile`].
pub ghost struct NewTranscodeFileV {
    pub path: Seq<char>,
    pub file_size: u64,
    pub ffprobe_info: FfProbeV,
}

impl View for NewTranscodeFile {
    type V = NewTranscodeFileV;

    open spec fn view(&self) -> NewTranscodeFileV {
        NewTranscodeFileV {
            path: self.path@,
            file_size: self.file_size,
            ffprobe_info: self.ffprobe_info@,
        }
    }
}

// ---------------------------------------------------------------------------
// Ledger well-formedness
// ---------------------------------------------------------------------------

/// Well-formedness of one row standing at position `rowid - 1`:
/// the surrogate id matches its position, updates never precede creation,
/// a successful row carries no error message, and a failed row carries a
/// non-empty one.
pub open spec fn row_wf(r: TranscodeFileV, rowid: int) -> bool {
    &&& r.rowid == rowid
    &&& r.file_size >= 0
    &&& r.updated_on >= r.created_on
    &&& (r.status is Success ==> r.error_message is None)
    &&& (r.status is Pending ==> r.error_message is None)
    &&& (r.status is Error ==> r.error_message is Some && r.error_message.unwrap().len() > 0)
}

/// Well-formedness of the whole ledger: every row is well formed at its
/// position and no two rows share a path.
pub open spec fn ledger_wf(rows: Seq<TranscodeFileV>) -> bool {
    &&& forall|i: int| 0 <= i < rows.len() ==> row_wf(#[trigger] rows[i], i + 1)
    &&& forall|i: int, j: int|
        0 <= i < j < rows.len() ==> rows[i].path != rows[j].path
}

/// Whether some row holds this path.
pub open spec fn spec_has_path(rows: Seq<TranscodeFileV>, p: Seq<char>) -> bool {
    exists|i: int| 0 <= i < rows.len() && rows[i].path == p
}

/// How many rows hold this path.
pub open spec fn count_path(rows: Seq<TranscodeFileV>, p: Seq<char>) -> int
    decreases rows.len(),
{
    if rows.len() == 0 {
        0
    } else {
        count_path(rows.drop_last(), p) + if rows.last().path == p {
            1int
        } else {
            0int
        }
    }
}

/// The row a fresh insert appends.
pub open spec fn spec_new_row(f: NewTranscodeFileV, rowid: int, now: i64) -> TranscodeFileV {
    TranscodeFileV {
        rowid: rowid as i64,
        path: f.path,
        status: TranscodeStatus::Pending,
        created_on: now,
        updated_on: now,
        error_message: None,
        file_size: f.file_size as i64,
        ffprobe_info: Some(f.ffprobe_info),
    }
}

/// One conflict-tolerant insert: a known path leaves the ledger unchanged.
pub open spec fn spec_insert_one(
    rows: Seq<TranscodeFileV>,
    f: NewTranscodeFileV,
    now: i64,
) -> Seq<TranscodeFileV> {
    if spec_has_path(rows, f.path) {
        rows
    } else {
        rows.push(spec_new_row(f, rows.len() as int + 1, now))
    }
}

/// The views of a batch of rows to insert.
pub open spec fn batch_views(files: Seq<NewTranscodeFile>) -> Seq<NewTranscodeFileV> {
    files.map_values(|f: NewTranscodeFile| f@)
}

/// A whole batch inserted front to back at one timestamp.
pub open spec fn spec_insert_batch(
    rows: Seq<TranscodeFileV>,
    files: Seq<NewTranscodeFileV>,
    now: i64,
) -> Seq<TranscodeFileV>
    decreases files.len(),
{
    if files.len() == 0 {
        rows
    } else {
        spec_insert_batch(spec_insert_one(rows, files.first(), now), files.drop_first(), now)
    }
}

/// Batch insertion peels files from the back as well as from the front.
proof fn lemma_insert_batch_snoc(
    rows: Seq<TranscodeFileV>,
    files: Seq<NewTranscodeFileV>,
    f: NewTranscodeFileV,
    now: i64,
)
    ensures
        spec_insert_batch(rows, files.push(f), now) == spec_insert_one(
            spec_insert_batch(rows, files, now),
            f,
            now,
        ),
    decreases files.len(),
{
    if files.len() == 0 {
        let one = spec_insert_one(rows, f, now);
        assert(files.push(f).drop_first() =~= Seq::<NewTranscodeFileV>::empty());
        assert(files.push(f).first() == f);
        assert(spec_insert_batch(rows, files.push(f), now) == spec_insert_batch(
            one,
            files.push(f).drop_first(),
            now,
        ));
        assert(spec_insert_batch(one, files.push(f).drop_first(), now) == one);
        assert(spec_insert_batch(rows, files, now) == rows);
    } else {
        let mid = spec_insert_one(rows, files.first(), now);
        assert(files.push(f).first() == files.first());
        assert(files.push(f).drop_first() =~= files.drop_first().push(f));
        assert(spec_insert_batch(rows, files.push(f), now) == spec_insert_batch(
            mid,
            files.drop_first().push(f),
            now,
        ));
        lemma_insert_batch_snoc(mid, files.drop_first(), f, now);
        assert(spec_insert_batch(rows, files, now) == spec_insert_batch(
            mid,
            files.drop_first(),
            now,
        ));
    }
}

/// One insert preserves well-formedness and never removes a path.
proof fn lemma_insert_one_wf(rows: Seq<TranscodeFileV>, f: NewTranscodeFileV, now: i64)
    requires
        ledger_wf(rows),
        rows.len() < i64::MAX,
        f.file_size <= i64::MAX,
    ensures
        ledger_wf(spec_insert_one(rows, f, now)),
        spec_has_path(spec_insert_one(rows, f, now), f.path),
        forall|q: Seq<char>|
            spec_has_path(rows, q) ==> spec_has_path(spec_insert_one(rows, f, now), q),
        rows.len() <= spec_insert_one(rows, f, now).len() <= rows.len() + 1,
        forall|i: int| 0 <= i < rows.len() ==> spec_insert_one(rows, f, now)[i] == rows[i],
{
    let out = spec_insert_one(rows, f, now);
    if spec_has_path(rows, f.path) {
    } else {
        assert(out == rows.push(spec_new_row(f, rows.len() as int + 1, now)));
        assert forall|i: int| 0 <= i < out.len() implies row_wf(#[trigger] out[i], i + 1) by {
            if i < rows.len() {
                assert(out[i] == rows[i]);
            } else {
                assert(out[i] == spec_new_row(f, rows.len() as int + 1, now));
            }
        }
        assert forall|i: int, j: int| 0 <= i < j < out.len() implies out[i].path != out[j].path by {
            if j == out.len() - 1 {
                assert(!spec_has_path(rows, f.path));
                assert(rows[i].path != f.path);
            }
        }
        assert(out[rows.len() as int].path == f.path);
    }
    assert forall|q: Seq<char>| spec_has_path(rows, q) implies spec_has_path(out, q) by {
        let w = choose|w: int| 0 <= w < rows.len() && rows[w].path == q;
        assert(out[w].path == q);
    }
}

/// A whole batch preserves well-formedness, keeps every old path, keeps
/// every old row in place, and afterwards holds every path of the batch.
proof fn lemma_insert_batch_wf(rows: Seq<TranscodeFileV>, files: Seq<NewTranscodeFileV>, now: i64)
    requires
        ledger_wf(rows),
        rows.len() + files.len() <= i64::MAX,
        forall|k: int| 0 <= k < files.len() ==> (#[trigger] files[k]).file_size <= i64::MAX,
    ensures
        ledger_wf(spec_insert_batch(rows, files, now)),
        spec_insert_batch(rows, files, now).len() <= rows.len() + files.len(),
        forall|q: Seq<char>|
            spec_has_path(rows, q) ==> spec_has_path(spec_insert_batch(rows, files, now), q),
        forall|k: int|
            0 <= k < files.len() ==> spec_has_path(
                spec_insert_batch(rows, files, now),
                files[k].path,
            ),
        rows.len() <= spec_insert_batch(rows, files, now).len(),
        forall|i: int| 0 <= i < rows.len() ==> spec_insert_batch(rows, files, now)[i] == rows[i],
    decreases files.len(),
{
    if files.len() > 0 {
        let mid = spec_insert_one(rows, files.first(), now);
        lemma_insert_one_wf(rows, files.first(), now);
        lemma_insert_batch_wf(mid, files.drop_first(), now);
        let out = spec_insert_batch(rows, files, now);
        assert forall|k: int| 0 <= k < files.len() implies spec_has_path(out, files[k].path) by {
            if k == 0 {
                assert(spec_has_path(mid, files.first().path));
            } else {
                assert(files.drop_first()[k - 1] == files[k]);
            }
        }
    }
}

/// In a well-formed ledger a present path occupies exactly one row.
proof fn lemma_count_path_of_wf(rows: Seq<TranscodeFileV>, p: Seq<char>)
    requires
        ledger_wf(rows),
    ensures
        spec_has_path(rows, p) ==> count_path(rows, p) == 1,
        !spec_has_path(rows, p) ==> count_path(rows, p) == 0,
{
    lemma_count_path_members(rows, p);
}

/// The path count is the number of witnesses, and a well-formed ledger
/// admits at most one.
proof fn lemma_count_path_members(rows: Seq<TranscodeFileV>, p: Seq<char>)
    ensures
        !spec_has_path(rows, p) ==> count_path(rows, p) == 0,
        spec_has_path(rows, p) && (forall|i: int, j: int|
            0 <= i < j < rows.len() ==> rows[i].path != rows[j].path) ==> count_path(rows, p) == 1,
        count_path(rows, p) >= 0,
    decreases rows.len(),
{
    if rows.len() == 0 {
    } else {
        let front = rows.drop_last();
        lemma_count_path_members(front, p);
        assert(forall|i: int| 0 <= i < front.len() ==> front[i] == rows[i]);
        if !spec_has_path(rows, p) {
            assert(!spec_has_path(front, p));
            assert(rows.last().path != p);
        } else {
            if forall|i: int, j: int| 0 <= i < j < rows.len() ==> rows[i].path != rows[j].path {
                let w = choose|i: int| 0 <= i < rows.len() && rows[i].path == p;
                if w == rows.len() - 1 {
                    assert(!spec_has_path(front, p)) by {
                        if spec_has_path(front, p) {
                            let v = choose|i: int|
                                0 <= i < front.len() && front[i].path == p;
                            assert(rows[v].path == rows[w].path);
                        }
                    }
                } else {
                    assert(spec_has_path(front, p)) by {
                        assert(front[w] == rows[w]);
                    }
                    assert(rows.last().path != p) by {
                        assert(rows[w].path == p);
                    }
                }
            }
        }
    }
}

/// Inserting a batch twice over leaves exactly one row for each path of
/// the batch: insertion is idempotent per path.
pub proof fn lemma_insert_batch_idempotent(
    rows: Seq<TranscodeFileV>,
    files: Seq<NewTranscodeFileV>,
    now1: i64,
    now2: i64,
    k: int,
)
    requires
        ledger_wf(rows),
        0 <= k < files.len(),
        rows.len() + files.len() + files.len() <= i64::MAX,
        forall|t: int| 0 <= t < files.len() ==> (#[trigger] files[t]).file_size <= i64::MAX,
    ensures
        count_path(
            spec_insert_batch(spec_insert_batch(rows, files, now1), files, now2),
            files[k].path,
        ) == 1,
{
    let once = spec_insert_batch(rows, files, now1);
    lemma_insert_batch_wf(rows, files, now1);
    lemma_insert_batch_wf(once, files, now2);
    let twice = spec_insert_batch(once, files, now2);
    assert(spec_has_path(once, files[k].path));
    assert(spec_has_path(twice, files[k].path));
    lemma_count_path_of_wf(twice, files[k].path);
}

/// Every Success row was updated no earlier than it was created and
/// carries no error message.
pub proof fn lemma_success_rows(rows: Seq<TranscodeFileV>, i: int)
    requires
        ledger_wf(rows),
        0 <= i < rows.len(),
        rows[i].status is Success,
    ensures
        rows[i].updated_on >= rows[i].created_on,
        rows[i].error_message is None,
{
}

/// Every Error row carries a non-empty error message.
pub proof fn lemma_error_rows(rows: Seq<TranscodeFileV>, i: int)
    requires
        ledger_wf(rows),
        0 <= i < rows.len(),
        rows[i].status is Error,
    ensures
        rows[i].error_message is Some,
        rows[i].error_message.unwrap().len() > 0,
{
}

// ---------------------------------------------------------------------------
// The ledger
// ---------------------------------------------------------------------------

/// The file ledger, the single source of truth across runs. Its view is
/// the sequence of row views in storage order.
pub struct Database {
    rows: Vec<TranscodeFile>,
}

impl View for Database {
    type V = Seq<TranscodeFileV>;

    closed spec fn view(&self) -> Seq<TranscodeFileV> {
        self.rows@.map_values(|r: TranscodeFile| r@)
    }
}

/// Relies on jiff::Timestamp::now for the wall clock: seconds since the
/// Unix epoch at the moment of the call.
#[verifier::external_body]
fn now_seconds() -> i64 {
    jiff::Timestamp::now().as_second()
}

impl Database {
    /// Whether this ledger is well formed. Constructors establish it and
    /// every method preserves it.
    pub open spec fn wf(&self) -> bool {
        ledger_wf(self@)
    }

    /// A fresh, empty ledger.
    pub fn new() -> (r: Result<Database, TranscodeError>)
        ensures
            match r {
                Ok(db) => db@ == Seq::<TranscodeFileV>::empty() && db.wf(),
                Err(_) => false,
            },
    {
        let db = Database { rows: Vec::new() };
        proof {
            assert(db@ =~= Seq::<TranscodeFileV>::empty());
        }
        Ok(db)
    }

    /// A fresh, empty ledger that never touches durable storage.
    pub fn in_memory() -> (r: Result<Database, TranscodeError>)
        ensures
            match r {
                Ok(db) => db@ == Seq::<TranscodeFileV>::empty() && db.wf(),
                Err(_) => false,
            },
    {
        Database::new()
    }

    /// Position of the row holding `path`, if any.
    fn find_path(&self, path: &str) -> (r: Option<usize>)
        ensures
            match r {
                Some(i) => i < self@.len() && self@[i as int].path == path@,
                None => !spec_has_path(self@, path@),
            },
    {
        let mut i: usize = 0;
        while i < self.rows.len()
            invariant
                0 <= i <= self.rows.len(),
                forall|j: int| 0 <= j < i ==> self@[j].path != path@,
            decreases self.rows.len() - i,
        {
            if str_eq(self.rows[i].path.as_str(), path) {
                return Some(i);
            }
            i = i + 1;
        }
        None
    }

    /// Single-row insert. A duplicate path is refused with a constraint
    /// error and the ledger is left unchanged; otherwise the row is
    /// appended as Pending with both timestamps set to the present call.
    pub fn insert(&mut self, file: NewTranscodeFile) -> (r: Result<(), TranscodeError>)
        requires
            old(self).wf(),
            file@.file_size <= i64::MAX,
            old(self)@.len() < i64::MAX,
        ensures
            final(self).wf(),
            match r {
                Ok(_) => !spec_has_path(old(self)@, file@.path) && exists|now: i64|
                    final(self)@ == old(self)@.push(
                        #[trigger] spec_new_row(file@, old(self)@.len() as int + 1, now),
                    ),
                Err(e) => spec_has_path(old(self)@, file@.path) && final(self)@ == old(self)@ && e
                    is LedgerConstraint && e.spec_message()
                    == "UNIQUE constraint failed: transcode_files.path"@,
            },
    {
        match self.find_path(file.path.as_str()) {
            Some(_) => Err(
                TranscodeError::LedgerConstraint(
                    String::from_str("UNIQUE constraint failed: transcode_files.path"),
                ),
            ),
            None => {
                let now = now_seconds();
                let rowid_usize = self.rows.len();
                let row = TranscodeFile {
                    rowid: (rowid_usize as i64) + 1,
                    path: file.path,
                    status: TranscodeStatus::Pending,
                    created_on: now,
                    updated_on: now,
                    error_message: None,
                    file_size: file.file_size as i64,
                    ffprobe_info: Some(file.ffprobe_info),
                };
                self.rows.push(row);
                proof {
                    assert(self@ =~= old(self)@.push(
                        spec_new_row(file@, old(self)@.len() as int + 1, now),
                    ));
                    lemma_insert_one_wf(old(self)@, file@, now);
                    assert(spec_insert_one(old(self)@, file@, now) == self@);
                }
                Ok(())
            },
        }
    }

    /// Idempotent bulk insert: rows for already-known paths (or paths seen
    /// earlier in the same batch) are silently skipped, the rest are
    /// appended as Pending, all stamped with one present timestamp.
    pub fn insert_batch(&mut self, files: &Vec<NewTranscodeFile>) -> (r: Result<
        (),
        TranscodeError,
    >)
        requires
            old(self).wf(),
            forall|k: int| 0 <= k < files@.len() ==> (#[trigger] files@[k])@.file_size <= i64::MAX,
            old(self)@.len() + files@.len() <= i64::MAX,
        ensures
            final(self).wf(),
            r is Ok,
            exists|now: i64|
                final(self)@ == #[trigger] spec_insert_batch(old(self)@, batch_views(files@), now),
    {
        let now = now_seconds();
        let ghost fs = batch_views(files@);
        let mut i: usize = 0;
        while i < files.len()
            invariant
                0 <= i <= files@.len(),
                fs == batch_views(files@),
                forall|k: int| 0 <= k < files@.len() ==> (#[trigger] files@[k])@.file_size
                    <= i64::MAX,
                self@ == spec_insert_batch(old(self)@, fs.take(i as int), now),
                old(self)@.len() + files@.len() <= i64::MAX,
                self@.len() <= old(self)@.len() + i,
                old(self).wf(),
                self.wf(),
            decreases files@.len() - i,
        {
            let f = &files[i];
            proof {
                assert(fs.take(i + 1).drop_last() =~= fs.take(i as int));
                assert(fs.take(i + 1).last() == fs[i as int]);
                lemma_insert_batch_snoc(old(self)@, fs.take(i as int), fs[i as int], now);
                assert(fs.take(i + 1) =~= fs.take(i as int).push(fs[i as int]));
            }
            match self.find_path(f.path.as_str()) {
                Some(_) => {
                    proof {
                        assert(spec_has_path(self@, fs[i as int].path));
                        assert(spec_insert_one(self@, fs[i as int], now) == self@);
                    }
                },
                None => {
                    let rowid_usize = self.rows.len();
                    let row = TranscodeFile {
                        rowid: (rowid_usize as i64) + 1,
                        path: f.path.clone(),
                        status: TranscodeStatus::Pending,
                        created_on: now,
                        updated_on: now,
                        error_message: None,
                        file_size: f.file_size as i64,
                        ffprobe_info: Some(f.ffprobe_info.clone()),
                    };
                    let ghost before = self@;
                    self.rows.push(row);
                    proof {
                        assert(self@ =~= before.push(
                            spec_new_row(fs[i as int], before.len() as int + 1, now),
                        ));
                        lemma_insert_one_wf(before, fs[i as int], now);
                        assert(spec_insert_one(before, fs[i as int], now) == self@);
                    }
                },
            }
            i = i + 1;
        }
        proof {
            assert(fs.take(i as int) =~= fs);
        }
        Ok(())
    }

    /// All rows, biggest file first.
    pub fn list(&self) -> (r: Result<Vec<TranscodeFile>, TranscodeError>)
        ensures
            match r {
                Ok(out) => spec_listing(self@, out@.map_values(|x: TranscodeFile| x@), self@.len() as int),
                Err(_) => false,
            },
    {
        self.list_limit(None)
    }

    /// Up to `count` rows, biggest file first. A missing or negative
    /// count, or one beyond the ledger, returns every row.
    pub fn list_limit(&self, count: Option<i64>) -> (r: Result<Vec<TranscodeFile>, TranscodeError>)
        ensures
            match r {
                Ok(out) => spec_listing(
                    self@,
                    out@.map_values(|x: TranscodeFile| x@),
                    spec_limit(count, self@.len() as int),
                ),
                Err(_) => false,
            },
    {
        broadcast use vstd::seq_lib::group_to_multiset_ensures;
        broadcast use vstd::multiset::group_multiset_axioms;

        let ghost orig = self@;
        // Clone the rows.
        let mut work: Vec<TranscodeFile> = Vec::new();
        let mut i: usize = 0;
        while i < self.rows.len()
            invariant
                0 <= i <= self.rows.len(),
                work@.map_values(|x: TranscodeFile| x@) =~= orig.take(i as int),
                orig == self@,
            decreases self.rows.len() - i,
        {
            let ghost prev = work@.map_values(|x: TranscodeFile| x@);
            work.push(self.rows[i].clone());
            proof {
                assert(work@.map_values(|x: TranscodeFile| x@) =~= prev.push(self.rows@[i as int]@));
                assert(prev.push(self.rows@[i as int]@) =~= orig.take(i + 1));
            }
            i = i + 1;
        }
        proof {
            assert(orig.take(self.rows@.len() as int) =~= orig);
        }
        // Selection sort by extraction: repeatedly move the largest
        // remaining row to the output.
        let mut out: Vec<TranscodeFile> = Vec::new();
        while work.len() > 0
            invariant
                sorted_by_size_desc(out@.map_values(|x: TranscodeFile| x@)),
                out@.map_values(|x: TranscodeFile| x@).to_multiset().add(
                    work@.map_values(|x: TranscodeFile| x@).to_multiset(),
                ) =~= orig.to_multiset(),
                forall|a: int, b: int|
                    0 <= a < out@.len() && 0 <= b < work@.len() ==> (#[trigger] out@[a])@.file_size
                        >= (#[trigger] work@[b])@.file_size,
            decreases work.len(),
        {
            let m = index_of_largest(&work);
            let ghost wv = work@.map_values(|x: TranscodeFile| x@);
            let ghost ov = out@.map_values(|x: TranscodeFile| x@);
            let x = work.remove(m);
            out.push(x);
            proof {
                wv.to_multiset_ensures();
                ov.to_multiset_ensures();
                assert(work@.map_values(|x: TranscodeFile| x@) =~= wv.remove(m as int));
                assert(out@.map_values(|x: TranscodeFile| x@) =~= ov.push(wv[m as int]));
                assert(wv.contains(wv[m as int]));
                assert(wv.to_multiset().count(wv[m as int]) > 0);
                assert(ov.push(wv[m as int]).to_multiset().add(wv.remove(m as int).to_multiset())
                    =~= ov.to_multiset().add(wv.to_multiset()));
                assert(sorted_by_size_desc(ov.push(wv[m as int]))) by {
                    let nv = ov.push(wv[m as int]);
                    assert forall|a: int, b: int| 0 <= a <= b < nv.len() implies nv[a].file_size
                        >= nv[b].file_size by {
                        if b < nv.len() - 1 {
                        } else if a < nv.len() - 1 {
                            assert(ov[a].file_size >= wv[m as int].file_size);
                        }
                    }
                }
            }
        }
        proof {
            assert(work@.map_values(|x: TranscodeFile| x@) =~= Seq::<TranscodeFileV>::empty());
            assert(out@.map_values(|x: TranscodeFile| x@).to_multiset() =~= orig.to_multiset());
        }
        let ghost full = out@.map_values(|x: TranscodeFile| x@);
        // Apply the row limit.
        let limit_opt: Option<usize> = match count {
            Some(c) => {
                if c >= 0 && (c as u64) < (out.len() as u64) {
                    Some(c as usize)
                } else {
                    None
                }
            },
            None => None,
        };
        if let Some(limit) = limit_opt {
            while out.len() > limit
                invariant
                    limit <= out@.len() <= full.len(),
                    out@.map_values(|x: TranscodeFile| x@) =~= full.take(out@.len() as int),
                decreases out.len(),
            {
                out.pop();
                proof {
                    assert(out@.map_values(|x: TranscodeFile| x@) =~= full.take(out@.len() as int));
                }
            }
        }
        proof {
            assert(out@.map_values(|x: TranscodeFile| x@) =~= full.take(out@.len() as int));
            let n = spec_limit(count, orig.len() as int);
            assert(full.len() == orig.len()) by {
                assert(full.to_multiset().len() == orig.to_multiset().len());
            }
            assert(out@.len() == n);
        }
        Ok(out)
    }

    /// Single-row status update, keyed by the surrogate id the ledger
    /// itself assigned. Sets the new status, stores the message (cleared
    /// on Success), advances `updated_on` monotonically, and touches
    /// nothing else.
    pub fn set_file_status(
        &mut self,
        rowid: i64,
        status: TranscodeStatus,
        error_message: Option<String>,
    ) -> (r: Result<(), TranscodeError>)
        requires
            old(self).wf(),
            1 <= rowid <= old(self)@.len(),
            status is Success || status is Error,
            status is Error ==> error_message is Some && error_message.unwrap()@.len() > 0,
            status is Success ==> error_message is None,
        ensures
            final(self).wf(),
            r is Ok,
            final(self)@.len() == old(self)@.len(),
            forall|i: int|
                0 <= i < final(self)@.len() && i != rowid - 1 ==> final(self)@[i] == old(self)@[i],
            ({
                let row = final(self)@[rowid - 1];
                let was = old(self)@[rowid - 1];
                &&& row.rowid == was.rowid
                &&& row.path == was.path
                &&& row.created_on == was.created_on
                &&& row.file_size == was.file_size
                &&& row.ffprobe_info == was.ffprobe_info
                &&& row.status == status
                &&& row.error_message == match status {
                    TranscodeStatus::Success => None::<Seq<char>>,
                    _ => opt_str_view(error_message),
                }
                &&& row.updated_on >= was.updated_on
            }),
    {
        let now = now_seconds();
        let len = self.rows.len();
        proof {
            assert(old(self)@.len() == self.rows@.len());
        }
        assert(0 <= rowid - 1 < len);
        let i = (rowid - 1) as usize;
        let current = &self.rows[i];
        let updated_on = if now >= current.updated_on {
            now
        } else {
            current.updated_on
        };
        let row = TranscodeFile {
            rowid: current.rowid,
            path: current.path.clone(),
            status,
            created_on: current.created_on,
            updated_on,
            error_message: match status {
                TranscodeStatus::Success => None,
                _ => error_message,
            },
            file_size: current.file_size,
            ffprobe_info: clone_opt_probe(&current.ffprobe_info),
        };
        let ghost rv = row@;
        self.rows.set(i, row);
        proof {
            let ghost was = old(self)@[rowid - 1];
            assert(was == old(self).rows@[rowid - 1]@);
            assert(row_wf(was, rowid as int));
            assert(rv.rowid == was.rowid);
            assert(rv.path == was.path);
            assert(rv.created_on == was.created_on);
            assert(rv.file_size == was.file_size);
            assert(rv.ffprobe_info == was.ffprobe_info);
            assert(self@ =~= old(self)@.update(rowid - 1, rv));
            assert forall|k: int| 0 <= k < self@.len() implies row_wf(#[trigger] self@[k], k + 1) by {
                if k != rowid - 1 {
                    assert(self@[k] == old(self)@[k]);
                } else {
                    assert(self@[k] == rv);
                }
            }
            assert forall|a: int, b: int| 0 <= a < b < self@.len() implies self@[a].path
                != self@[b].path by {
                assert(self@[a].path == old(self)@[a].path);
                assert(self@[b].path == old(self)@[b].path);
            }
        }
        Ok(())
    }
}

/// Rows ordered biggest first.
pub open spec fn sorted_by_size_desc(s: Seq<TranscodeFileV>) -> bool {
    forall|i: int, j: int| 0 <= i <= j < s.len() ==> s[i].file_size >= s[j].file_size
}

/// The number of rows a listing returns for a requested count: a missing
/// or negative count, or one beyond the ledger, means every row.
pub open spec fn spec_limit(count: Option<i64>, len: int) -> int {
    match count {
        Some(c) => if 0 <= c < len {
            c as int
        } else {
            len
        },
        None => len,
    }
}

/// What a listing returns: a prefix, cut at the limit, of some ordering
/// of all rows with the biggest file first.
pub open spec fn spec_listing(rows: Seq<TranscodeFileV>, out: Seq<TranscodeFileV>, n: int) -> bool {
    exists|sorted: Seq<TranscodeFileV>|
        {
            &&& sorted.to_multiset() == rows.to_multiset()
            &&& sorted_by_size_desc(sorted)
            &&& sorted.len() == rows.len()
            &&& out == sorted.take(n)
        }
}

/// Position of a row whose file size is no smaller than any other.
fn index_of_largest(v: &Vec<TranscodeFile>) -> (m: usize)
    requires
        v@.len() > 0,
    ensures
        m < v@.len(),
        forall|j: int| 0 <= j < v@.len() ==> v@[m as int]@.file_size >= (#[trigger] v@[j])@.file_size,
{
    let mut m: usize = 0;
    let mut i: usize = 1;
    while i < v.len()
        invariant
            0 <= m < i <= v@.len(),
            forall|j: int| 0 <= j < i ==> v@[m as int]@.file_size >= (#[trigger] v@[j])@.file_size,
        decreases v@.len() - i,
    {
        if v[i].file_size > v[m].file_size {
            m = i;
        }
        i = i + 1;
    }
    m
}

} // verus!
