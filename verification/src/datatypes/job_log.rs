//! The jobs the user started: each runs a command's handler and keeps
//! what it showed.


use vstd::prelude::*;

use crate::command::handler::display_text;
use crate::command::handler::export_bytes;
use crate::command::handler::finished;
use crate::command::handler::step;
use crate::command::handler::wants_display;
use crate::command::handler::Handler;
use crate::command::handler::HandlerView;
use crate::command::request::RequestPlan;
use crate::datatypes::coap_log::CoapMessage;
use crate::datatypes::log::now;
use crate::datatypes::user_input::SaveTarget;
use crate::datatypes::user_input::SaveToFile;
use crate::numfmt::digits;
use crate::numfmt::hex_upper;
use crate::numfmt::pad_left;
use crate::text::string_from_chars;
use crate::text::string_push_str;

use crate::datatypes::log::Timestamp;

verus! {

/// The number of a job: its place in the job log.
pub type JobId = usize;

/// A byte as `{:02X}` writes it.
pub open spec fn hex2(b: u8) -> Seq<char> {
    pad_left(digits(b as nat, 16), 2, '0')
}

/// The bytes of a row from `i` on, each in hexadecimal, a space after
/// every fourth and after the last.
pub open spec fn row_cells(chunk: Seq<u8>, i: int) -> Seq<char>
    decreases chunk.len() - i,
{
    if i < 0 || i >= chunk.len() {
        Seq::empty()
    } else {
        hex2(chunk[i]) + (if i % 4 == 3 || i + 1 == chunk.len() {
            " "@
        } else {
            Seq::empty()
        }) + row_cells(chunk, i + 1)
    }
}

/// The row of the bytes from `start` to `end`: the offset (three
/// hexadecimal digits at least), `|`, and the bytes.
pub open spec fn hex_row(data: Seq<u8>, start: int, end: int) -> Seq<char> {
    pad_left(digits(start as nat, 16), 3, '0') + "|"@ + row_cells(data.subrange(start, end), 0) + "\n"@
}

/// The rows of a hex dump from offset `start` on: each row is the offset
/// (three hexadecimal digits at least), `|`, and up to sixteen bytes.
pub open spec fn hex_rows(data: Seq<u8>, start: int) -> Seq<char>
    decreases data.len() - start,
{
    if start < 0 || start >= data.len() {
        Seq::empty()
    } else if start + 16 >= data.len() {
        hex_row(data, start, data.len() as int)
    } else {
        hex_row(data, start, start + 16) + hex_rows(data, start + 16)
    }
}

/// A hex dump: a header line naming the columns, then the rows.
pub open spec fn hex_dump(data: Seq<u8>) -> Seq<char> {
    "\n   |0 1 2 3  4 5 6 7  8 9 A B  C D E F\n"@ + hex_rows(data, 0)
}

/// The cells of one row.
fn row_string(chunk: &[u8]) -> (r: String)
    ensures
        r@ == row_cells(chunk@, 0),
{
    let mut out = String::new();
    let mut i: usize = 0;
    while i < chunk.len()
        invariant
            i <= chunk@.len(),
            out@ + row_cells(chunk@, i as int) == row_cells(chunk@, 0),
        decreases chunk@.len() - i,
    {
        let ghost before = out@;
        let v = hex_upper(chunk[i] as u64, 2);
        string_push_str(&mut out, string_from_chars(v.as_slice()).as_str());
        if i % 4 == 3 || i + 1 == chunk.len() {
            string_push_str(&mut out, " ");
            assert(out@ =~= before + hex2(chunk@[i as int]) + " "@);
        } else {
            assert(out@ =~= before + hex2(chunk@[i as int]) + Seq::<char>::empty());
        }
        assert(out@ + row_cells(chunk@, i + 1) =~= before + row_cells(chunk@, i as int));
        i = i + 1;
    }
    assert(out@ + row_cells(chunk@, i as int) =~= out@);
    out
}

/// A hex dump of `bin_data` (see `hex_dump`).
pub fn hexdump(bin_data: &[u8]) -> (r: String)
    ensures
        r@ == hex_dump(bin_data@),
{
    let mut buffer = "\n   |0 1 2 3  4 5 6 7  8 9 A B  C D E F\n".to_owned();
    let ghost head = buffer@;
    assert(head == "\n   |0 1 2 3  4 5 6 7  8 9 A B  C D E F\n"@);
    let mut start: usize = 0;
    while start < bin_data.len()
        invariant
            start <= bin_data@.len() + 16,
            start % 16 == 0,
            head == "\n   |0 1 2 3  4 5 6 7  8 9 A B  C D E F\n"@,
            buffer@ + hex_rows(bin_data@, start as int) == head + hex_rows(bin_data@, 0),
        decreases bin_data@.len() - start,
    {
        let ghost before = buffer@;
        let end: usize = if bin_data.len() - start >= 16 { start + 16 } else { bin_data.len() };
        let chunk = crate::seqs::copy_range(bin_data, start, end);
        let offset = hex_upper(start as u64, 3);
        string_push_str(&mut buffer, string_from_chars(offset.as_slice()).as_str());
        string_push_str(&mut buffer, "|");
        string_push_str(&mut buffer, row_string(chunk.as_slice()).as_str());
        string_push_str(&mut buffer, "\n");
        assert(buffer@ =~= before + hex_row(bin_data@, start as int, end as int));
        if bin_data.len() - start <= 16 {
            assert(buffer@ =~= head + hex_rows(bin_data@, 0));
            return buffer;
        }
        assert(buffer@ + hex_rows(bin_data@, start + 16) =~= before + hex_rows(bin_data@, start as int));
        start = start + 16;
    }
    assert(buffer@ + hex_rows(bin_data@, start as int) =~= buffer@);
    buffer
}

/// A job: a command's handler (none when the command line could not be
/// read), where its output goes, the command line, and what it showed.
pub struct Job {
    handler: Option<Handler>,
    file: SaveToFile,
    cli: String,
    log: String,
    start_time: Timestamp,
    end_time: Option<Timestamp>,
    finished: bool,
}

/// A job as a value.
pub struct JobView {
    pub handler: Option<HandlerView>,
    pub file: SaveTarget,
    pub cli: Seq<char>,
    pub log: Seq<char>,
    /// Whether the job was marked done.
    pub finished: bool,
    /// Whether its end time was taken.
    pub ended: bool,
}

impl View for Job {
    type V = JobView;

    closed spec fn view(&self) -> JobView {
        JobView {
            handler: match self.handler {
                Some(h) => Some(h@),
                None => None,
            },
            file: self.file@,
            cli: self.cli@,
            log: self.log@,
            finished: self.finished,
            ended: self.end_time is Some,
        }
    }
}

/// Where a job's output goes once it is shown.
pub enum JobOutput {
    /// Only shown.
    Show,
    /// `data` is written to the file at `path`.
    WriteBinary { path: String, data: Vec<u8> },
    /// `text` is written to the file at `path`.
    WriteText { path: String, text: String },
    /// `data` is written to standard output.
    Stdout(Vec<u8>),
}

/// Where a job's output goes, as a value.
pub enum JobOutputView {
    Show,
    WriteBinary { path: Seq<char>, data: Seq<u8> },
    WriteText { path: Seq<char>, text: Seq<char> },
    Stdout(Seq<u8>),
}

impl View for JobOutput {
    type V = JobOutputView;

    open spec fn view(&self) -> JobOutputView {
        match self {
            JobOutput::Show => JobOutputView::Show,
            JobOutput::WriteBinary { path, data } => JobOutputView::WriteBinary { path: path@, data: data@ },
            JobOutput::WriteText { path, text } => JobOutputView::WriteText { path: path@, text: text@ },
            JobOutput::Stdout(data) => JobOutputView::Stdout(data@),
        }
    }
}

/// Where the output of job `j` goes and what is written there: the raw
/// bytes for a binary file and standard output, the text it shows for a
/// text file; a job without handler is only shown.
pub open spec fn job_output_of(j: JobView) -> JobOutputView {
    match j.handler {
        Some(h) => match j.file {
            SaveTarget::No => JobOutputView::Show,
            SaveTarget::AsBin(path) => JobOutputView::WriteBinary { path, data: export_bytes(h) },
            SaveTarget::AsText(path) => JobOutputView::WriteText { path, text: display_text(h) },
            SaveTarget::ToStdout => JobOutputView::Stdout(export_bytes(h)),
        },
        None => JobOutputView::Show,
    }
}

/// What a job shows, for its output going to `file` and the write having
/// failed with `error` (or not): its text, or the hex dump of its bytes for
/// a binary file, with a note on where they were saved or why they could
/// not be; nothing when they go to standard output.
pub open spec fn shown_text(h: HandlerView, file: SaveTarget, error: Option<Seq<char>>) -> Seq<char> {
    match file {
        SaveTarget::No => display_text(h),
        SaveTarget::AsBin(path) => hex_dump(export_bytes(h)) + match error {
            None => "(binary saved to: "@ + path + ")\n"@,
            Some(e) => "(unable to write to "@ + path + ": "@ + e,
        },
        SaveTarget::AsText(path) => display_text(h) + match error {
            None => "(saved to: "@ + path + ")\n"@,
            Some(e) => "(unable to write to "@ + path + ": "@ + e,
        },
        SaveTarget::ToStdout => Seq::empty(),
    }
}

impl Job {
    /// A job for `handler`, started now.
    pub fn new(handler: Handler, file: SaveToFile, cli: String) -> (r: Self)
        ensures
            r@ == (JobView { handler: Some(handler@), file: file@, cli: cli@, log: Seq::empty(), finished: false, ended: false }),
    {
        Self {
            handler: Some(handler),
            file,
            cli,
            log: String::new(),
            start_time: now(),
            end_time: None,
            finished: false,
        }
    }

    /// A job whose command line could not be read: it shows `err`.
    pub fn new_failed(cli: String, err: &str) -> (r: Self)
        ensures
            r@ == (JobView { handler: None, file: SaveTarget::No, cli: cli@, log: err@, finished: false, ended: false }),
    {
        Self {
            handler: None,
            file: SaveToFile::No,
            cli,
            log: err.to_owned(),
            start_time: now(),
            end_time: None,
            finished: false,
        }
    }

    /// Marks the job done, now.
    pub fn finish(&mut self)
        ensures
            final(self)@ == (JobView { finished: true, ended: true, ..old(self)@ }),
    {
        self.end_time = Some(now());
        self.finished = true;
    }

    /// The command line.
    pub fn cli(&self) -> (r: &str)
        ensures
            r@ == self@.cli,
    {
        self.cli.as_str()
    }

    /// What the job showed so far.
    pub fn log(&self) -> (r: &str)
        ensures
            r@ == self@.log,
    {
        self.log.as_str()
    }

    /// When the job started.
    pub closed spec fn started(&self) -> Timestamp {
        self.start_time
    }

    /// When the job started, as `[HH:MM:SS.mmm]` (UTC).
    pub fn start_timestamp(&self) -> (r: String)
        ensures
            r@ == crate::datatypes::log::clock_text(self.started()@),
    {
        crate::datatypes::log::timestamp_text(&self.start_time)
    }
}

/// The jobs, in the order they were started.
pub struct JobLog {
    pub jobs: Vec<Job>,
}

impl JobLog {
    /// No jobs.
    pub fn new() -> (r: Self)
        ensures
            r.jobs@.len() == 0,
    {
        Self { jobs: Vec::new() }
    }

    /// Starts `job`; its number is its place in the log.
    pub fn start(&mut self, job: Job) -> (r: JobId)
        requires
            old(self).jobs@.len() < usize::MAX,
        ensures
            final(self).jobs@ == old(self).jobs@.push(job),
            r == old(self).jobs@.len(),
    {
        self.jobs.push(job);
        self.jobs.len() - 1
    }

    /// Passes the answer to the job's handler (see the handler's `step`);
    /// gives the request that follows, if any.
    pub fn job_handle_response(&mut self, job_id: JobId, response: &CoapMessage, senml_text: &str) -> (r: Option<RequestPlan>)
        requires
            job_id < old(self).jobs@.len(),
            old(self).jobs@[job_id as int]@.handler matches Some(h) && crate::command::handler::accepts(h, response@),
        ensures
            ({
                let j = old(self).jobs@[job_id as int]@;
                let (q, n) = step(j.handler->0, response@, senml_text@);
                &&& final(self).jobs@.len() == old(self).jobs@.len()
                &&& forall|i: int| 0 <= i < old(self).jobs@.len() && i != job_id ==> final(self).jobs@[i] == old(self).jobs@[i]
                &&& final(self).jobs@[job_id as int]@ == (JobView { handler: Some(n), ..j })
                &&& match q {
                    Some(qv) => r matches Some(p) && p@ == qv,
                    None => r is None,
                }
            }),
    {
        let job = &mut self.jobs[job_id];
        match &mut job.handler {
            Some(h) => h.handle(response, senml_text),
            None => None,
        }
    }

    /// Whether the job has a handler that can take the answer `response`
    /// (see `JobLog::job_handle_response`).
    pub fn job_accepts(&self, job_id: JobId, response: &CoapMessage) -> (r: bool)
        requires
            job_id < self.jobs@.len(),
        ensures
            r == match self.jobs@[job_id as int]@.handler {
                Some(h) => crate::command::handler::accepts(h, response@),
                None => false,
            },
    {
        match &self.jobs[job_id].handler {
            Some(h) => h.accepts(response),
            None => false,
        }
    }

    /// Whether the job's handler has something to show.
    pub fn job_wants_display(&self, job_id: JobId) -> (r: bool)
        requires
            job_id < self.jobs@.len(),
        ensures
            r == match self.jobs@[job_id as int]@.handler {
                Some(h) => wants_display(h),
                None => false,
            },
    {
        match &self.jobs[job_id].handler {
            Some(h) => h.want_display(),
            None => false,
        }
    }

    /// Whether the job is done: its handler is, or it has none.
    pub fn job_is_finished(&self, job_id: JobId) -> (r: bool)
        requires
            job_id < self.jobs@.len(),
        ensures
            r == match self.jobs@[job_id as int]@.handler {
                Some(h) => finished(h),
                None => true,
            },
    {
        match &self.jobs[job_id].handler {
            Some(h) => h.is_finished(),
            None => true,
        }
    }

    /// Marks the job done.
    pub fn job_finish(&mut self, job_id: JobId)
        requires
            job_id < old(self).jobs@.len(),
        ensures
            final(self).jobs@.len() == old(self).jobs@.len(),
            forall|i: int| 0 <= i < old(self).jobs@.len() && i != job_id ==> final(self).jobs@[i] == old(self).jobs@[i],
            final(self).jobs@[job_id as int]@ == (JobView { finished: true, ended: true, ..old(self).jobs@[job_id as int]@ }),
    {
        let mut job = self.jobs.remove(job_id);
        job.finish();
        self.jobs.insert(job_id, job);
    }

    /// Where the output of the job goes, and what is written there (see
    /// `job_output_of`), before it is shown.
    pub fn job_output(&self, job_id: JobId) -> (r: JobOutput)
        requires
            job_id < self.jobs@.len(),
        ensures
            r@ == job_output_of(self.jobs@[job_id as int]@),
    {
        let job = &self.jobs[job_id];
        match &job.handler {
            Some(h) => match &job.file {
                SaveToFile::No => JobOutput::Show,
                SaveToFile::AsBin(path) => JobOutput::WriteBinary { path: path.clone(), data: h.export() },
                SaveToFile::AsText(path) => {
                    let mut text = String::new();
                    h.display(&mut text);
                    assert(text@ =~= display_text(h@));
                    JobOutput::WriteText { path: path.clone(), text }
                },
                SaveToFile::ToStdout => JobOutput::Stdout(h.export()),
            },
            None => JobOutput::Show,
        }
    }

    /// What the job shows, once its output was written (`error` says why
    /// writing failed, if it did; see `shown_text`); it is added to the
    /// job's log.  A job without handler shows its log.
    pub fn job_display(&mut self, job_id: JobId, error: Option<String>) -> (r: String)
        requires
            job_id < old(self).jobs@.len(),
        ensures
            ({
                let j = old(self).jobs@[job_id as int]@;
                let e = match error {
                    Some(s) => Some(s@),
                    None => None,
                };
                &&& final(self).jobs@.len() == old(self).jobs@.len()
                &&& forall|i: int| 0 <= i < old(self).jobs@.len() && i != job_id ==> final(self).jobs@[i] == old(self).jobs@[i]
                &&& match j.handler {
                    Some(h) => {
                        &&& r@ == shown_text(h, j.file, e)
                        &&& final(self).jobs@[job_id as int]@ == (JobView { log: j.log + r@, ..j })
                    },
                    None => {
                        &&& r@ == j.log
                        &&& final(self).jobs@[job_id as int] == old(self).jobs@[job_id as int]
                    },
                }
            }),
    {
        if self.jobs[job_id].handler.is_none() {
            return self.jobs[job_id].log.clone();
        }
        let mut job = self.jobs.remove(job_id);
        let mut buffer = String::new();
        match &job.handler {
            Some(h) => match &job.file {
                SaveToFile::No => {
                    h.display(&mut buffer);
                },
                SaveToFile::AsBin(path) => {
                    let data = h.export();
                    string_push_str(&mut buffer, hexdump(data.as_slice()).as_str());
                    match &error {
                        None => {
                            string_push_str(&mut buffer, "(binary saved to: ");
                            string_push_str(&mut buffer, path.as_str());
                            string_push_str(&mut buffer, ")\n");
                        },
                        Some(e) => {
                            string_push_str(&mut buffer, "(unable to write to ");
                            string_push_str(&mut buffer, path.as_str());
                            string_push_str(&mut buffer, ": ");
                            string_push_str(&mut buffer, e.as_str());
                        },
                    }
                },
                SaveToFile::AsText(path) => {
                    h.display(&mut buffer);
                    match &error {
                        None => {
                            string_push_str(&mut buffer, "(saved to: ");
                            string_push_str(&mut buffer, path.as_str());
                            string_push_str(&mut buffer, ")\n");
                        },
                        Some(e) => {
                            string_push_str(&mut buffer, "(unable to write to ");
                            string_push_str(&mut buffer, path.as_str());
                            string_push_str(&mut buffer, ": ");
                            string_push_str(&mut buffer, e.as_str());
                        },
                    }
                },
                SaveToFile::ToStdout => {},
            },
            None => {},
        }
        let ghost shown = buffer@;
        string_push_str(&mut job.log, buffer.as_str());
        self.jobs.insert(job_id, job);
        buffer
    }

    /// What every job showed, in order.
    pub fn dump(&self) -> (r: Vec<String>)
        ensures
            r@.len() == self.jobs@.len(),
            forall|i: int| 0 <= i < r@.len() ==> r@[i]@ == self.jobs@[i]@.log,
    {
        let mut dump: Vec<String> = Vec::new();
        for i in 0..self.jobs.len()
            invariant
                dump@.len() == i,
                forall|k: int| 0 <= k < i ==> dump@[k]@ == self.jobs@[k]@.log,
        {
            dump.push(self.jobs[i].log.clone());
        }
        dump
    }
}

} // verus!
