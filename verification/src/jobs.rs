//! Download-job orchestration: job identities, lifecycle states, the
//! in-memory job table that the status endpoint reads, and the argument
//! lists handed to the downloader subprocess.
//!
//! The table owns every decision; the surrounding process performs the
//! spawning, the file writes, and the polling reads, feeding results back
//! in as plain values. Jobs are never deleted: a record lives for the rest
//! of the process.

use vstd::pervasive::VecAdditionalExecFns;
use vstd::prelude::*;

use crate::progress::ProgressReport;
use crate::records::MediaCategory;
use crate::text::{dec_digits, push_dec, str_eq, str_val};

verus! {

/// Lifecycle of a background download job.
///
/// A job starts `Queued`, moves to `Running` once its worker is dispatched,
/// and ends in exactly one of the terminal states `Success` or `Failed`.
#[derive(Clone, Copy, Debug, PartialEq, Eq, Structural)]
pub enum DownloadStatus {
    Queued,
    Running,
    Success,
    Failed,
}

/// Position of a status in the lifecycle order; transitions never decrease it.
pub open spec fn status_rank(s: DownloadStatus) -> int {
    match s {
        DownloadStatus::Queued => 0,
        DownloadStatus::Running => 1,
        DownloadStatus::Success => 2,
        DownloadStatus::Failed => 2,
    }
}

/// A status from which no further transition is allowed.
pub open spec fn is_terminal(s: DownloadStatus) -> bool {
    s is Success || s is Failed
}

/// A lawful lifecycle step: stay put, or move strictly forward. Both
/// terminal states have the same rank, so neither can replace the other.
pub open spec fn allowed_transition(from: DownloadStatus, to: DownloadStatus) -> bool {
    from == to || status_rank(from) < status_rank(to)
}

/// The label a status carries in API responses.
pub open spec fn status_label(s: DownloadStatus) -> Seq<char> {
    match s {
        DownloadStatus::Queued => "queued"@,
        DownloadStatus::Running => "running"@,
        DownloadStatus::Success => "completed"@,
        DownloadStatus::Failed => "failed"@,
    }
}

impl DownloadStatus {
    pub fn as_str(self) -> (r: &'static str)
        ensures
            r@ == status_label(self),
    {
        match self {
            DownloadStatus::Queued => "queued",
            DownloadStatus::Running => "running",
            DownloadStatus::Success => "completed",
            DownloadStatus::Failed => "failed",
        }
    }
}

/// The id string minted for the job with serial number `n`.
pub open spec fn job_id_chars(n: u64) -> Seq<char> {
    "download-"@ + dec_digits(n as nat)
}

/// The digit characters evaluate back to their values.
proof fn lemma_digit_roundtrip(d: nat)
    requires
        d < 10,
    ensures
        crate::text::digit_val(crate::text::digit_char(d)) == d,
{
    if d == 0 {
        assert(crate::text::digit_val('0') == 0);
    } else if d == 1 {
        assert(crate::text::digit_val('1') == 1);
    } else if d == 2 {
        assert(crate::text::digit_val('2') == 2);
    } else if d == 3 {
        assert(crate::text::digit_val('3') == 3);
    } else if d == 4 {
        assert(crate::text::digit_val('4') == 4);
    } else if d == 5 {
        assert(crate::text::digit_val('5') == 5);
    } else if d == 6 {
        assert(crate::text::digit_val('6') == 6);
    } else if d == 7 {
        assert(crate::text::digit_val('7') == 7);
    } else if d == 8 {
        assert(crate::text::digit_val('8') == 8);
    } else {
        assert(crate::text::digit_val('9') == 9);
    }
}

/// Decimal rendering evaluates back to the number it renders.
proof fn lemma_dec_digits_value(n: nat)
    ensures
        str_val(dec_digits(n)) == n,
        dec_digits(n).len() >= 1,
    decreases n,
{
    if n < 10 {
        assert(dec_digits(n) =~= seq![crate::text::digit_char(n)]);
        assert(dec_digits(n).drop_last() =~= Seq::<char>::empty());
        assert(dec_digits(n).last() == crate::text::digit_char(n));
        lemma_digit_roundtrip(n);
        assert(str_val(Seq::<char>::empty()) == 0);
        assert(str_val(dec_digits(n)) == n);
    } else {
        lemma_dec_digits_value(n / 10);
        assert(dec_digits(n).drop_last() =~= dec_digits(n / 10));
        assert(dec_digits(n).last() == crate::text::digit_char(n % 10));
        lemma_digit_roundtrip(n % 10);
        assert(str_val(dec_digits(n)) == str_val(dec_digits(n / 10)) * 10 + n % 10);
        assert(n == (n / 10) * 10 + n % 10) by (nonlinear_arith);
    }
}

/// Ids minted for different serial numbers are different strings: the
/// counter is strictly increasing and never reused, so across any number
/// of job-start calls all returned ids are distinct, and they are handed
/// out in increasing counter order.
pub proof fn lemma_job_ids_distinct(a: u64, b: u64)
    requires
        a != b,
    ensures
        job_id_chars(a) != job_id_chars(b),
{
    if job_id_chars(a) == job_id_chars(b) {
        let p = "download-"@;
        assert(dec_digits(a as nat) =~= job_id_chars(a).skip(p.len() as int));
        assert(dec_digits(b as nat) =~= job_id_chars(b).skip(p.len() as int));
        lemma_dec_digits_value(a as nat);
        lemma_dec_digits_value(b as nat);
        assert(false);
    }
}

/// One tracked job. `serial` is the counter value its id was minted from.
#[derive(Debug)]
pub struct DownloadJob {
    pub id: String,
    pub serial: u64,
    pub status: DownloadStatus,
    pub progress_file: String,
    pub message: String,
}

/// Mathematical view of a job.
pub struct DownloadJobView {
    pub id: Seq<char>,
    pub serial: u64,
    pub status: DownloadStatus,
    pub progress_file: Seq<char>,
    pub message: Seq<char>,
}

impl View for DownloadJob {
    type V = DownloadJobView;

    open spec fn view(&self) -> DownloadJobView {
        DownloadJobView {
            id: self.id@,
            serial: self.serial,
            status: self.status,
            progress_file: self.progress_file@,
            message: self.message@,
        }
    }
}

impl DeepView for DownloadJob {
    type V = DownloadJobView;

    open spec fn deep_view(&self) -> DownloadJobView {
        self.view()
    }
}

impl Clone for DownloadJob {
    fn clone(&self) -> (res: Self)
        ensures
            res@ == self@,
    {
        DownloadJob {
            id: self.id.clone(),
            serial: self.serial,
            status: self.status,
            progress_file: self.progress_file.clone(),
            message: self.message.clone(),
        }
    }
}

/// First job carrying `id`, scanning in creation order; ids are unique in
/// a well-formed table, so at most one job matches.
pub open spec fn job_get(jobs: Seq<DownloadJobView>, id: Seq<char>) -> Option<DownloadJobView>
    decreases jobs.len(),
{
    if jobs.len() == 0 {
        None
    } else if jobs[0].id == id {
        Some(jobs[0])
    } else {
        job_get(jobs.drop_first(), id)
    }
}

/// The table after a status update: the jobs carrying `id` move to
/// `status` where the lifecycle order allows it, everything else stays.
pub open spec fn spec_set_status(
    jobs: Seq<DownloadJobView>,
    id: Seq<char>,
    status: DownloadStatus,
    message: Seq<char>,
) -> Seq<DownloadJobView> {
    jobs.map_values(
        |j: DownloadJobView|
            if j.id == id && allowed_transition(j.status, status) {
                DownloadJobView { status, message, ..j }
            } else {
                j
            },
    )
}

/// Mathematical view of the job table.
#[verifier::ext_equal]
pub struct JobTableView {
    pub jobs: Seq<DownloadJobView>,
    pub counter: u64,
}

/// The in-memory job table: every job ever started in this process, plus
/// the counter the next id will be minted from.
pub struct JobTable {
    jobs: Vec<DownloadJob>,
    counter: u64,
}

impl View for JobTable {
    type V = JobTableView;

    closed spec fn view(&self) -> JobTableView {
        JobTableView { jobs: self.jobs.deep_view(), counter: self.counter }
    }
}

/// Well-formedness: each id is the rendering of its serial, and serials
/// increase strictly in creation order and stay below the counter.
pub open spec fn wf_table(t: JobTableView) -> bool {
    &&& forall|i: int|
        0 <= i < t.jobs.len() ==> (#[trigger] t.jobs[i]).id == job_id_chars(t.jobs[i].serial)
    &&& forall|i: int| 0 <= i < t.jobs.len() ==> (#[trigger] t.jobs[i]).serial < t.counter
    &&& forall|i: int, j: int|
        0 <= i < j < t.jobs.len() ==> (#[trigger] t.jobs[i]).serial < (#[trigger] t.jobs[j]).serial
}

/// In a well-formed table all job ids are distinct.
pub proof fn lemma_wf_ids_distinct(t: JobTableView, i: int, j: int)
    requires
        wf_table(t),
        0 <= i < t.jobs.len(),
        0 <= j < t.jobs.len(),
        i != j,
    ensures
        t.jobs[i].id != t.jobs[j].id,
{
    if i < j {
        lemma_job_ids_distinct(t.jobs[i].serial, t.jobs[j].serial);
    } else {
        lemma_job_ids_distinct(t.jobs[j].serial, t.jobs[i].serial);
    }
}

/// What one poll of the status endpoint reports.
#[derive(Debug)]
pub struct DownloadJobStatus {
    pub id: String,
    pub status: String,
    pub progress: u8,
    pub message: String,
}

impl JobTable {
    /// An empty table; the first job will be `download-1`.
    pub fn new() -> (t: Self)
        ensures
            t@.jobs.len() == 0,
            t@.counter == 1,
            wf_table(t@),
    {
        JobTable { jobs: Vec::new(), counter: 1 }
    }

    /// Mints the next job id from the strictly increasing counter.
    fn next_job_id(&mut self) -> (id: String)
        requires
            old(self)@.counter < u64::MAX,
        ensures
            id@ == job_id_chars(old(self)@.counter),
            final(self)@.counter == old(self)@.counter + 1,
            final(self)@.jobs == old(self)@.jobs,
    {
        let n = self.counter;
        self.counter = self.counter + 1;
        let mut id = String::from_str("download-");
        push_dec(&mut id, n);
        proof {
            assert(id@ =~= job_id_chars(n));
        }
        id
    }

    /// The id the next registration will mint, without minting it; the
    /// caller derives the progress-file path from it before registering.
    pub fn peek_next_id(&self) -> (id: String)
        ensures
            id@ == job_id_chars(self@.counter),
    {
        let mut id = String::from_str("download-");
        push_dec(&mut id, self.counter);
        proof {
            assert(id@ =~= job_id_chars(self@.counter));
        }
        id
    }

    /// Whether another id can still be minted; false only after the
    /// counter has exhausted its type, which a caller should treat as a
    /// refused download rather than risk an id being reused.
    pub fn can_register(&self) -> (r: bool)
        ensures
            r == (self@.counter < u64::MAX),
    {
        self.counter < u64::MAX
    }

    /// Creates a `Queued` job around its progress file and returns the
    /// fresh id. This is the synchronous part of starting a download; the
    /// caller then dispatches a worker and reports back through
    /// `set_status` and `finish`.
    pub fn register_job(&mut self, progress_file: &str) -> (id: String)
        requires
            wf_table(old(self)@),
            old(self)@.counter < u64::MAX,
        ensures
            wf_table(final(self)@),
            id@ == job_id_chars(old(self)@.counter),
            final(self)@.counter == old(self)@.counter + 1,
            final(self)@.jobs == old(self)@.jobs.push(
                DownloadJobView {
                    id: job_id_chars(old(self)@.counter),
                    serial: old(self)@.counter,
                    status: DownloadStatus::Queued,
                    progress_file: progress_file@,
                    message: "Queued"@,
                },
            ),
            job_get(final(self)@.jobs, id@) matches Some(j) && j.status is Queued,
    {
        let ghost n = self.counter;
        let id = self.next_job_id();
        let job = DownloadJob {
            id: id.clone(),
            serial: self.counter - 1,
            status: DownloadStatus::Queued,
            progress_file: String::from_str(progress_file),
            message: String::from_str("Queued"),
        };
        self.jobs.push(job);
        proof {
            let jobs = final(self)@.jobs;
            assert(jobs =~= old(self)@.jobs.push(
                DownloadJobView {
                    id: job_id_chars(n),
                    serial: n,
                    status: DownloadStatus::Queued,
                    progress_file: progress_file@,
                    message: "Queued"@,
                },
            ));
            assert forall|i: int| 0 <= i < jobs.len() implies (#[trigger] jobs[i]).id
                == job_id_chars(jobs[i].serial) by {}
            self.lemma_get_by_serial(n);
        }
        id
    }

    /// In a well-formed table extended with a fresh job, looking the fresh
    /// id up finds exactly that job.
    proof fn lemma_get_by_serial(&self, n: u64)
        requires
            wf_table(self@),
            self@.jobs.len() > 0,
            self@.jobs.last().serial == n,
            self@.jobs.last().id == job_id_chars(n),
        ensures
            job_get(self@.jobs, job_id_chars(n)) == Some(self@.jobs.last()),
    {
        lemma_job_get_unique_tail(self@, self@.jobs, 0, n);
        assert(self@.jobs.skip(0) =~= self@.jobs);
    }

    /// Applies one lifecycle step to the job carrying `id`. A step that
    /// would move backward — in particular any step away from a terminal
    /// state — is ignored, as is an unknown id.
    pub fn set_status(&mut self, id: &str, status: DownloadStatus, message: &str)
        requires
            wf_table(old(self)@),
        ensures
            wf_table(final(self)@),
            final(self)@.counter == old(self)@.counter,
            final(self)@.jobs == spec_set_status(old(self)@.jobs, id@, status, message@),
    {
        let ghost old_jobs = self@.jobs;
        let mut i: usize = 0;
        while i < self.jobs.len()
            invariant
                wf_table(old(self)@),
                old_jobs == old(self)@.jobs,
                i <= self@.jobs.len(),
                self@.counter == old(self)@.counter,
                self@.jobs.len() == old_jobs.len(),
                forall|j: int|
                    i <= j < old_jobs.len() ==> #[trigger] self@.jobs[j] == old_jobs[j],
                forall|j: int|
                    0 <= j < i ==> #[trigger] self@.jobs[j] == spec_set_status(
                        old_jobs,
                        id@,
                        status,
                        message@,
                    )[j],
            decreases self.jobs.len() - i,
        {
            let matches_id = str_eq(self.jobs[i].id.as_str(), id);
            let cur = self.jobs[i].status;
            let step_ok = match (cur, status) {
                (a, b) if a == b => true,
                (DownloadStatus::Queued, DownloadStatus::Running) => true,
                (DownloadStatus::Queued, DownloadStatus::Success) => true,
                (DownloadStatus::Queued, DownloadStatus::Failed) => true,
                (DownloadStatus::Running, DownloadStatus::Success) => true,
                (DownloadStatus::Running, DownloadStatus::Failed) => true,
                _ => false,
            };
            let ghost prev_jobs = self@.jobs;
            if matches_id && step_ok {
                let mut updated = self.jobs[i].clone();
                updated.status = status;
                updated.message = String::from_str(message);
                self.jobs.set(i, updated);
            }
            proof {
                assert(allowed_transition(cur, status) == step_ok);
                assert(prev_jobs[i as int] == old_jobs[i as int]);
                assert(cur == old_jobs[i as int].status);
                assert(matches_id == (old_jobs[i as int].id == id@));
                assert forall|j: int|
                    0 <= j < old_jobs.len() && j != i as int implies #[trigger] self@.jobs[j]
                    == prev_jobs[j] by {}
                assert(spec_set_status(old_jobs, id@, status, message@)[i as int] == (
                if old_jobs[i as int].id == id@ && allowed_transition(
                    old_jobs[i as int].status,
                    status,
                ) {
                    DownloadJobView { status, message: message@, ..old_jobs[i as int] }
                } else {
                    old_jobs[i as int]
                }));
                if matches_id && step_ok {
                    assert(self@.jobs[i as int] == DownloadJobView {
                        status,
                        message: message@,
                        ..old_jobs[i as int]
                    });
                }
            }
            i = i + 1;
        }
        proof {
            assert(final(self)@.jobs =~= spec_set_status(old(self)@.jobs, id@, status, message@));
            let t = final(self)@;
            assert forall|i2: int| 0 <= i2 < t.jobs.len() implies (#[trigger] t.jobs[i2]).id
                == job_id_chars(t.jobs[i2].serial) by {
                assert(old(self)@.jobs[i2].id == job_id_chars(old(self)@.jobs[i2].serial));
            }
        }
    }

    /// Settles a finished worker: success becomes `Success` with message
    /// `Done`, an error becomes `Failed` with the error appended to
    /// `Failed: `. The caller also rewrites the progress file to the
    /// failure report when an error is recorded.
    pub fn finish(&mut self, id: &str, error: Option<&str>)
        requires
            wf_table(old(self)@),
        ensures
            wf_table(final(self)@),
            final(self)@.counter == old(self)@.counter,
            match error {
                None => final(self)@.jobs == spec_set_status(
                    old(self)@.jobs,
                    id@,
                    DownloadStatus::Success,
                    "Done"@,
                ),
                Some(e) => final(self)@.jobs == spec_set_status(
                    old(self)@.jobs,
                    id@,
                    DownloadStatus::Failed,
                    "Failed: "@ + e@,
                ),
            },
    {
        match error {
            None => self.set_status(id, DownloadStatus::Success, "Done"),
            Some(e) => {
                let mut message = String::from_str("Failed: ");
                message.append(e);
                self.set_status(id, DownloadStatus::Failed, message.as_str());
            },
        }
    }

    /// The progress-file path recorded for `id`, so the caller can make
    /// the fresh read that `get_status` folds in.
    pub fn progress_file_of(&self, id: &str) -> (r: Option<String>)
        ensures
            match job_get(self@.jobs, id@) {
                Some(j) => r matches Some(p) && p@ == j.progress_file,
                None => r is None,
            },
    {
        let ghost jobs = self@.jobs;
        proof {
            assert(jobs.skip(0) =~= jobs);
        }
        let mut i: usize = 0;
        while i < self.jobs.len()
            invariant
                i <= self.jobs.len(),
                jobs == self@.jobs,
                job_get(jobs, id@) == job_get(jobs.skip(i as int), id@),
            decreases self.jobs.len() - i,
        {
            proof {
                assert(jobs.skip(i as int).drop_first() =~= jobs.skip(i + 1));
            }
            if str_eq(self.jobs[i].id.as_str(), id) {
                proof {
                    assert(jobs.skip(i as int)[0] == jobs[i as int]);
                }
                return Some(self.jobs[i].progress_file.clone());
            }
            i = i + 1;
        }
        None
    }

    /// One poll: the lifecycle status and the message come from the
    /// in-memory record; only the percentage comes from the fresh read of
    /// the progress file the caller just made (zero when that read
    /// failed). An unknown id reports nothing — and nothing else happens.
    pub fn get_status(&self, id: &str, progress: Option<ProgressReport>) -> (r: Option<
        DownloadJobStatus,
    >)
        ensures
            r is Some <==> job_get(self@.jobs, id@) is Some,
            match r {
                Some(s) => {
                    let j = job_get(self@.jobs, id@)->0;
                    &&& s.id@ == j.id
                    &&& s.status@ == status_label(j.status)
                    &&& s.message@ == j.message
                    &&& s.progress == (match progress {
                        Some(p) => p.progress,
                        None => 0u8,
                    })
                },
                None => true,
            },
    {
        let ghost jobs = self@.jobs;
        proof {
            assert(jobs.skip(0) =~= jobs);
        }
        let mut i: usize = 0;
        while i < self.jobs.len()
            invariant
                i <= self.jobs.len(),
                jobs == self@.jobs,
                job_get(jobs, id@) == job_get(jobs.skip(i as int), id@),
            decreases self.jobs.len() - i,
        {
            proof {
                assert(jobs.skip(i as int).drop_first() =~= jobs.skip(i + 1));
            }
            if str_eq(self.jobs[i].id.as_str(), id) {
                proof {
                    assert(jobs.skip(i as int)[0] == jobs[i as int]);
                }
                let job = &self.jobs[i];
                let progress_value = match progress {
                    Some(p) => p.progress,
                    None => 0,
                };
                return Some(
                    DownloadJobStatus {
                        id: job.id.clone(),
                        status: String::from_str(job.status.as_str()),
                        progress: progress_value,
                        message: job.message.clone(),
                    },
                );
            }
            i = i + 1;
        }
        None
    }
}

proof fn lemma_job_get_unique_tail(t: JobTableView, jobs: Seq<DownloadJobView>, from: int, n: u64)
    requires
        wf_table(t),
        jobs == t.jobs,
        0 <= from < jobs.len(),
        jobs.last().serial == n,
        jobs.last().id == job_id_chars(n),
    ensures
        job_get(jobs.skip(from), job_id_chars(n)) == Some(jobs.last()),
    decreases jobs.len() - from,
{
    let tail = jobs.skip(from);
    assert(tail[0] == jobs[from]);
    if from == jobs.len() - 1 {
        assert(tail.len() == 1);
    } else {
        assert(jobs[from].serial < n);
        lemma_job_ids_distinct(jobs[from].serial, n);
        assert(tail[0].id != job_id_chars(n));
        lemma_job_get_unique_tail(t, jobs, from + 1, n);
        assert(tail.drop_first() =~= jobs.skip(from + 1));
    }
}

/// Once a job has reached a terminal state, no later update moves it:
/// its reported status never reverts.
pub proof fn lemma_terminal_status_is_final(
    jobs: Seq<DownloadJobView>,
    id: Seq<char>,
    i: int,
    status: DownloadStatus,
    message: Seq<char>,
)
    requires
        0 <= i < jobs.len(),
        is_terminal(jobs[i].status),
    ensures
        spec_set_status(jobs, id, status, message)[i].status == jobs[i].status,
{
}

/// Every update leaves every job's status at the same rank or higher:
/// the lifecycle never moves backward.
pub proof fn lemma_status_monotonic(
    jobs: Seq<DownloadJobView>,
    id: Seq<char>,
    i: int,
    status: DownloadStatus,
    message: Seq<char>,
)
    requires
        0 <= i < jobs.len(),
    ensures
        status_rank(spec_set_status(jobs, id, status, message)[i].status) >= status_rank(
            jobs[i].status,
        ),
{
}

/// The label of the media kind, as passed to the downloader subprocess.
pub open spec fn media_kind_chars(kind: MediaCategory) -> Seq<char> {
    match kind {
        MediaCategory::Video => "video"@,
        MediaCategory::Short => "short"@,
    }
}

pub fn media_kind_label(kind: MediaCategory) -> (r: &'static str)
    ensures
        r@ == media_kind_chars(kind),
{
    match kind {
        MediaCategory::Video => "video",
        MediaCategory::Short => "short",
    }
}

/// The media kind named in a job request, compared after trimming and
/// lowercasing; anything but `short`/`shorts` means a long-form video,
/// including an absent value.
pub fn parse_media_kind(value: Option<&str>) -> (r: MediaCategory)
    ensures
        match value {
            Some(v) => {
                let norm = crate::downloader::lower_of(crate::text::spec_trim(v@));
                r is Short <==> (norm == "short"@ || norm == "shorts"@)
            },
            None => r is Video,
        },
{
    match value {
        None => MediaCategory::Video,
        Some(v) => {
            let chars = crate::text::str_to_chars(v);
            let n = chars.len();
            let (lo, hi) = crate::text::trim_range(&chars, 0, n);
            proof {
                assert(chars@.subrange(0, n as int) =~= chars@);
            }
            let trimmed = crate::text::chars_to_string(&chars, lo, hi);
            let norm = crate::downloader::to_ascii_lower(trimmed.as_str());
            if str_eq(norm.as_str(), "short") || str_eq(norm.as_str(), "shorts") {
                MediaCategory::Short
            } else {
                MediaCategory::Video
            }
        },
    }
}

/// The path of a job's progress file under the media root.
pub fn progress_file_path(media_root: &str, job_id: &str) -> (r: String)
    ensures
        r@ == media_root@ + "/downloads/"@ + job_id@ + ".json"@,
{
    let mut r = String::from_str(media_root);
    r.append("/downloads/");
    r.append(job_id);
    r.append(".json");
    r
}

/// The argument list for a single-video download:
/// `--media-root R --www-root W --progress-file P --video-id V --media-kind K`.
pub fn video_download_args(
    media_root: &str,
    www_root: &str,
    progress_file: &str,
    video_id: &str,
    kind: MediaCategory,
) -> (args: Vec<String>)
    ensures
        args.deep_view() == seq![
            "--media-root"@,
            media_root@,
            "--www-root"@,
            www_root@,
            "--progress-file"@,
            progress_file@,
            "--video-id"@,
            video_id@,
            "--media-kind"@,
            media_kind_chars(kind),
        ],
{
    let mut args: Vec<String> = Vec::new();
    args.push(String::from_str("--media-root"));
    args.push(String::from_str(media_root));
    args.push(String::from_str("--www-root"));
    args.push(String::from_str(www_root));
    args.push(String::from_str("--progress-file"));
    args.push(String::from_str(progress_file));
    args.push(String::from_str("--video-id"));
    args.push(String::from_str(video_id));
    args.push(String::from_str("--media-kind"));
    args.push(String::from_str(media_kind_label(kind)));
    proof {
        assert(args.deep_view() =~= seq![
            "--media-root"@,
            media_root@,
            "--www-root"@,
            www_root@,
            "--progress-file"@,
            progress_file@,
            "--video-id"@,
            video_id@,
            "--media-kind"@,
            media_kind_chars(kind),
        ]);
    }
    args
}

/// The argument list for a channel download:
/// `--media-root R --www-root W --progress-file P URL`.
pub fn channel_download_args(
    media_root: &str,
    www_root: &str,
    progress_file: &str,
    channel_url: &str,
) -> (args: Vec<String>)
    ensures
        args.deep_view() == seq![
            "--media-root"@,
            media_root@,
            "--www-root"@,
            www_root@,
            "--progress-file"@,
            progress_file@,
            channel_url@,
        ],
{
    let mut args: Vec<String> = Vec::new();
    args.push(String::from_str("--media-root"));
    args.push(String::from_str(media_root));
    args.push(String::from_str("--www-root"));
    args.push(String::from_str(www_root));
    args.push(String::from_str("--progress-file"));
    args.push(String::from_str(progress_file));
    args.push(String::from_str(channel_url));
    proof {
        assert(args.deep_view() =~= seq![
            "--media-root"@,
            media_root@,
            "--www-root"@,
            www_root@,
            "--progress-file"@,
            progress_file@,
            channel_url@,
        ]);
    }
    args
}

} // verus!
