//! The leveled logger: severity filtering, record formatting and the
//! output-sink abstraction.
//!
//! A [`Logger`] owns a severity threshold, an output sink and two optional
//! templates.  `log` writes a record exactly when the message's severity is
//! at least the threshold; the record is the default
//! `<timestamp> <LEVEL> <message>` line, or the stored record template with
//! `timestamp`, `level`, `message` and `thread` substituted.

use vstd::prelude::*;

use std::io::Write;

use crate::template::{
    lemma_subst_trailing_newline,
    subst_spec,
    substitute,
    views_of,
    LogError,
};
use crate::timestamp::{clock_in_range, render_ts, timestamp_fmt, ts_rendered};

verus! {

/// Message severity, ordered from most verbose to most critical.
#[derive(Clone, Copy, Debug, PartialEq, Eq, Structural)]
pub enum LogLevel {
    TRACE,
    DEBUG,
    INFO,
    WARNING,
    ERROR,
    FATAL,
}

impl LogLevel {
    /// The rank by which severities are compared.
    pub open spec fn spec_rank(self) -> int {
        match self {
            LogLevel::TRACE => 0,
            LogLevel::DEBUG => 1,
            LogLevel::INFO => 2,
            LogLevel::WARNING => 3,
            LogLevel::ERROR => 4,
            LogLevel::FATAL => 5,
        }
    }

    pub fn rank(self) -> (r: u8)
        ensures
            r as int == self.spec_rank(),
    {
        match self {
            LogLevel::TRACE => 0,
            LogLevel::DEBUG => 1,
            LogLevel::INFO => 2,
            LogLevel::WARNING => 3,
            LogLevel::ERROR => 4,
            LogLevel::FATAL => 5,
        }
    }

    /// The comparison the filtering gate uses.
    pub fn at_least(self, other: LogLevel) -> (r: bool)
        ensures
            r == (self.spec_rank() >= other.spec_rank()),
    {
        self.rank() >= other.rank()
    }

    /// The symbolic name a record shows for this severity.
    pub open spec fn spec_name(self) -> Seq<char> {
        match self {
            LogLevel::TRACE => "TRACE"@,
            LogLevel::DEBUG => "DEBUG"@,
            LogLevel::INFO => "INFO"@,
            LogLevel::WARNING => "WARNING"@,
            LogLevel::ERROR => "ERROR"@,
            LogLevel::FATAL => "FATAL"@,
        }
    }

    pub fn name(self) -> (r: &'static str)
        ensures
            r@ == self.spec_name(),
    {
        match self {
            LogLevel::TRACE => "TRACE",
            LogLevel::DEBUG => "DEBUG",
            LogLevel::INFO => "INFO",
            LogLevel::WARNING => "WARNING",
            LogLevel::ERROR => "ERROR",
            LogLevel::FATAL => "FATAL",
        }
    }
}

/// Relies on std's `Stdout::lock` and `Write::write_all`: writes the whole
/// record to the process's standard output while exclusively holding the
/// handle's lock, and reports any underlying I/O error.
#[verifier::external_body]
fn write_stdout(rec: &str) -> Result<(), ()> {
    let stdout = std::io::stdout();
    let mut handle = stdout.lock();
    match handle.write_all(rec.as_bytes()) {
        Ok(()) => Ok(()),
        Err(_) => Err(()),
    }
}

/// The output sink a logger writes rendered records to: the process's
/// standard output, or an in-memory buffer (a test double standing for any
/// caller-supplied writer).
pub enum LogStream {
    Stdout,
    Buffer(String),
}

impl LogStream {
    /// What this sink has received, as far as it can be observed.
    pub open spec fn contents(self) -> Seq<char> {
        match self {
            LogStream::Stdout => Seq::empty(),
            LogStream::Buffer(b) => b@,
        }
    }

    /// Writes one rendered record.  A buffer receives the record whole and
    /// in order; standard output either takes the whole record or reports
    /// `WriteFailed`.
    pub fn write(&mut self, rec: &str) -> (r: Result<(), LogError>)
        ensures
            *old(self) is Buffer ==> r is Ok && *final(self) is Buffer && (*final(self)).contents()
                == (*old(self)).contents() + rec@,
            *old(self) is Stdout ==> *final(self) == *old(self) && (r is Ok || r == Err::<
                (),
                LogError,
            >(LogError::WriteFailed)),
    {
        match self {
            LogStream::Stdout => match write_stdout(rec) {
                Ok(()) => Ok(()),
                Err(()) => Err(LogError::WriteFailed),
            },
            LogStream::Buffer(buf) => {
                buf.append(rec);
                Ok(())
            },
        }
    }
}

/// How a stored timestamp template relates to the argument of
/// `set_ts_format`: the empty string clears the template.
pub open spec fn normalize_ts_format(s: Seq<char>) -> Option<Seq<char>> {
    if s.len() == 0 {
        None
    } else {
        Some(s)
    }
}

/// How a stored record template relates to the argument of
/// `set_rec_format`: the empty string clears the template, and a template
/// that does not already end in a newline gets exactly one appended.
pub open spec fn normalize_rec_format(s: Seq<char>) -> Option<Seq<char>> {
    if s.len() == 0 {
        None
    } else if s.last() == '\n' {
        Some(s)
    } else {
        Some(s.push('\n'))
    }
}

/// The default record line: timestamp, symbolic severity name and message,
/// separated by single spaces, with a single trailing newline.
pub open spec fn default_line(ts: Seq<char>, level: LogLevel, msg: Seq<char>) -> Seq<char> {
    ts + " "@ + level.spec_name() + " "@ + msg + "\n"@
}

/// The fixed bindings a record template may reference.
pub open spec fn record_vars(
    ts: Seq<char>,
    level: LogLevel,
    msg: Seq<char>,
    thread: Seq<char>,
) -> Seq<(Seq<char>, Seq<char>)> {
    seq![
        ("timestamp"@, ts),
        ("level"@, level.spec_name()),
        ("message"@, msg),
        ("thread"@, thread),
    ]
}

/// What the record formatter yields from an already rendered timestamp.
pub open spec fn render_rec(
    recf: Option<Seq<char>>,
    ts: Seq<char>,
    level: LogLevel,
    msg: Seq<char>,
    thread: Seq<char>,
) -> Result<Seq<char>, LogError> {
    match recf {
        None => Ok(default_line(ts, level, msg)),
        Some(t) => subst_spec(t, record_vars(ts, level, msg, thread)),
    }
}

/// What one log record is under the templates `tsf` and `recf`, for clock
/// reading `h:m:s.u`.
pub open spec fn spec_record(
    tsf: Option<Seq<char>>,
    recf: Option<Seq<char>>,
    h: int,
    m: int,
    s: int,
    u: int,
    level: LogLevel,
    msg: Seq<char>,
    thread: Seq<char>,
) -> Result<Seq<char>, LogError> {
    match render_ts(tsf, h, m, s, u) {
        Ok(ts) => render_rec(recf, ts, level, msg, thread),
        Err(e) => Err(e),
    }
}

/// Holds when `r` is what the record formatter produces under the templates
/// `tsf` and `recf` for the in-range clock reading `h:m:s.u`.
pub open spec fn record_rendered(
    tsf: Option<Seq<char>>,
    recf: Option<Seq<char>>,
    r: Result<String, LogError>,
    h: int,
    m: int,
    s: int,
    u: int,
    level: LogLevel,
    msg: Seq<char>,
    thread: Seq<char>,
) -> bool {
    clock_in_range(h, m, s, u) && (match spec_record(tsf, recf, h, m, s, u, level, msg, thread) {
        Ok(rec) => r matches Ok(o) && o@ == rec,
        Err(e) => r matches Err(e2) && e2 == e,
    })
}

/// Setting the record template to the empty string reverts to the default
/// line: the stored template is cleared, and the formatter then renders the
/// default line for every message.
pub proof fn lemma_empty_template_reverts(
    s: Seq<char>,
    ts: Seq<char>,
    level: LogLevel,
    msg: Seq<char>,
    thread: Seq<char>,
)
    requires
        s.len() == 0,
    ensures
        normalize_rec_format(s) is None,
        render_rec(normalize_rec_format(s), ts, level, msg, thread) == Ok::<Seq<char>, LogError>(
            default_line(ts, level, msg),
        ),
{
}

/// A non-empty record template that does not already end in a newline is
/// stored with exactly one newline appended; one that does is stored
/// verbatim.  Either way the stored template ends in exactly one newline,
/// and, because `log` never rewrites it, it stays that way no matter how
/// many records are rendered.
pub proof fn lemma_rec_format_normalized(s: Seq<char>)
    requires
        s.len() > 0,
    ensures
        normalize_rec_format(s) matches Some(t) && t.len() > 0 && t.last() == '\n',
        s.last() != '\n' ==> normalize_rec_format(s) == Some(s.push('\n'))
            && normalize_rec_format(s)->0[s.len() as int - 1] != '\n',
        s.last() == '\n' ==> normalize_rec_format(s) == Some(s),
{
}

/// Every record that the formatter renders through a stored (normalized)
/// record template, or through the default line, ends in a newline.
pub proof fn lemma_record_ends_newline(
    recf: Option<Seq<char>>,
    ts: Seq<char>,
    level: LogLevel,
    msg: Seq<char>,
    thread: Seq<char>,
)
    requires
        recf matches Some(t) ==> t.len() > 0 && t.last() == '\n',
        render_rec(recf, ts, level, msg, thread) is Ok,
    ensures
        render_rec(recf, ts, level, msg, thread) matches Ok(r) && r.len() > 0 && r.last() == '\n',
{
    match recf {
        None => {
            reveal_strlit("\n");
            let line = default_line(ts, level, msg);
            assert(line.last() == "\n"@[0]);
        },
        Some(t) => {
            lemma_subst_trailing_newline(t, record_vars(ts, level, msg, thread));
        },
    }
}

/// The logger: a severity threshold, an output sink, and the two optional
/// templates.  The threshold defaults to `INFO`, the sink to standard
/// output, the templates to the built-in renderings.
pub struct Logger {
    pub min_level: LogLevel,
    pub out_stream: LogStream,
    pub ts_format: Option<String>,
    pub rec_format: Option<String>,
}

impl Logger {
    /// The stored timestamp template.
    pub open spec fn spec_ts_format(self) -> Option<Seq<char>> {
        match self.ts_format {
            None => None,
            Some(s) => Some(s@),
        }
    }

    /// The stored record template.
    pub open spec fn spec_rec_format(self) -> Option<Seq<char>> {
        match self.rec_format {
            None => None,
            Some(s) => Some(s@),
        }
    }

    /// A fresh logger with every setting at its default.
    pub fn new() -> (r: Logger)
        ensures
            r.min_level == LogLevel::INFO,
            r.out_stream is Stdout,
            r.spec_ts_format() is None,
            r.spec_rec_format() is None,
    {
        Logger {
            min_level: LogLevel::INFO,
            out_stream: LogStream::Stdout,
            ts_format: None,
            rec_format: None,
        }
    }

    /// Replaces the filtering threshold.
    pub fn set_min_level(&mut self, minlevel: LogLevel)
        ensures
            final(self).min_level == minlevel,
            final(self).out_stream == old(self).out_stream,
            final(self).ts_format == old(self).ts_format,
            final(self).rec_format == old(self).rec_format,
    {
        self.min_level = minlevel;
    }

    /// Replaces the active sink, dropping the previous one.  No I/O is
    /// performed at call time.
    pub fn set_stream(&mut self, strm: LogStream)
        ensures
            final(self).out_stream == strm,
            final(self).min_level == old(self).min_level,
            final(self).ts_format == old(self).ts_format,
            final(self).rec_format == old(self).rec_format,
    {
        self.out_stream = strm;
    }

    /// Replaces the timestamp template; the empty string reverts to the
    /// default rendering.  Validity is only checked at first use.
    pub fn set_ts_format(&mut self, ts_fmt: String)
        ensures
            final(self).spec_ts_format() == normalize_ts_format(ts_fmt@),
            final(self).min_level == old(self).min_level,
            final(self).out_stream == old(self).out_stream,
            final(self).rec_format == old(self).rec_format,
    {
        if ts_fmt.as_str().is_empty() {
            self.ts_format = None;
        } else {
            self.ts_format = Some(ts_fmt);
        }
    }

    /// Replaces the record template; the empty string reverts to the
    /// default line.  A non-empty template is normalized, once, to end with
    /// exactly one newline.
    pub fn set_rec_format(&mut self, rec_fmt: String)
        ensures
            final(self).spec_rec_format() == normalize_rec_format(rec_fmt@),
            final(self).min_level == old(self).min_level,
            final(self).out_stream == old(self).out_stream,
            final(self).ts_format == old(self).ts_format,
    {
        let ghost s0 = rec_fmt@;
        if rec_fmt.as_str().is_empty() {
            self.rec_format = None;
        } else {
            let n = rec_fmt.as_str().unicode_len();
            if rec_fmt.as_str().get_char(n - 1) == '\n' {
                self.rec_format = Some(rec_fmt);
            } else {
                let mut t = rec_fmt;
                t.append("\n");
                proof {
                    reveal_strlit("\n");
                    assert(t@ =~= s0.push('\n'));
                }
                self.rec_format = Some(t);
            }
        }
    }

    /// Renders the record for one message: the current timestamp (through
    /// the timestamp template, if any), then the default line or the stored
    /// record template with `timestamp`, `level`, `message` and `thread`
    /// bound.
    pub fn create_rec(&self, level: LogLevel, msg: &str, thread: &str) -> (r: Result<
        String,
        LogError,
    >)
        ensures
            exists|h: int, m: int, s: int, u: int|
                #[trigger] record_rendered(
                    self.spec_ts_format(),
                    self.spec_rec_format(),
                    r,
                    h,
                    m,
                    s,
                    u,
                    level,
                    msg@,
                    thread@,
                ),
    {
        let ts_res = timestamp_fmt(self.ts_format.as_ref());
        let ghost (gh, gm, gs, gu) = choose|h: int, m: int, s: int, u: int|
            ts_rendered(self.spec_ts_format(), ts_res, h, m, s, u);
        let ts = match ts_res {
            Ok(t) => t,
            Err(e) => {
                let res: Result<String, LogError> = Err(e);
                proof {
                    assert(record_rendered(
                        self.spec_ts_format(),
                        self.spec_rec_format(),
                        res,
                        gh,
                        gm,
                        gs,
                        gu,
                        level,
                        msg@,
                        thread@,
                    ));
                }
                return res;
            },
        };
        let ghost tsv = ts@;
        match &self.rec_format {
            None => {
                let mut out = ts;
                out.append(" ");
                out.append(level.name());
                out.append(" ");
                out.append(msg);
                out.append("\n");
                let res: Result<String, LogError> = Ok(out);
                proof {
                    assert(record_rendered(
                        self.spec_ts_format(),
                        self.spec_rec_format(),
                        res,
                        gh,
                        gm,
                        gs,
                        gu,
                        level,
                        msg@,
                        thread@,
                    ));
                }
                res
            },
            Some(f) => {
                let mut vars: Vec<(String, String)> = Vec::new();
                vars.push((String::from_str("timestamp"), ts));
                vars.push((String::from_str("level"), String::from_str(level.name())));
                vars.push((String::from_str("message"), String::from_str(msg)));
                vars.push((String::from_str("thread"), String::from_str(thread)));
                proof {
                    assert(views_of(vars@) =~= record_vars(tsv, level, msg@, thread@));
                }
                let res = substitute(f.as_str(), &vars);
                proof {
                    assert(record_rendered(
                        self.spec_ts_format(),
                        self.spec_rec_format(),
                        res,
                        gh,
                        gm,
                        gs,
                        gu,
                        level,
                        msg@,
                        thread@,
                    ));
                }
                res
            },
        }
    }

    /// Holds when the step from `pre` to `post` with result `r` is one
    /// `log` call that passed the severity gate, for clock reading
    /// `h:m:s.u`: the rendered record reaches the sink whole, a template
    /// error is returned with the sink untouched, and a standard-output
    /// write either succeeds or reports `WriteFailed`.
    pub open spec fn logged(
        pre: Logger,
        post: Logger,
        r: Result<(), LogError>,
        h: int,
        m: int,
        s: int,
        u: int,
        level: LogLevel,
        msg: Seq<char>,
        thread: Seq<char>,
    ) -> bool {
        clock_in_range(h, m, s, u) && (match spec_record(
            pre.spec_ts_format(),
            pre.spec_rec_format(),
            h,
            m,
            s,
            u,
            level,
            msg,
            thread,
        ) {
            Err(e) => r == Err::<(), LogError>(e) && post.out_stream == pre.out_stream,
            Ok(rec) => {
                &&& pre.out_stream is Buffer ==> r is Ok && post.out_stream is Buffer
                    && post.out_stream.contents() == pre.out_stream.contents() + rec
                &&& pre.out_stream is Stdout ==> post.out_stream is Stdout && (r is Ok || r
                    == Err::<(), LogError>(LogError::WriteFailed))
            },
        })
    }

    /// The filtering gate and the write: a record is produced and written
    /// if and only if `level` is at least the threshold; otherwise the call
    /// is a no-op that performs no formatting and no I/O.
    pub fn log(&mut self, level: LogLevel, msg: &str, thread: &str) -> (r: Result<(), LogError>)
        ensures
            final(self).min_level == old(self).min_level,
            final(self).ts_format == old(self).ts_format,
            final(self).rec_format == old(self).rec_format,
            level.spec_rank() < old(self).min_level.spec_rank() ==> r is Ok && *final(self) == *old(
                self,
            ),
            level.spec_rank() >= old(self).min_level.spec_rank() ==> exists|
                h: int,
                m: int,
                s: int,
                u: int,
            |
                #[trigger] Logger::logged(
                    *old(self),
                    *final(self),
                    r,
                    h,
                    m,
                    s,
                    u,
                    level,
                    msg@,
                    thread@,
                ),
    {
        if !level.at_least(self.min_level) {
            return Ok(());
        }
        let rec = match self.create_rec(level, msg, thread) {
            Ok(rc) => rc,
            Err(e) => {
                let res: Result<(), LogError> = Err(e);
                proof {
                    let (gh, gm, gs, gu) = choose|h: int, m: int, s: int, u: int|
                        record_rendered(
                            self.spec_ts_format(),
                            self.spec_rec_format(),
                            Err::<String, LogError>(e),
                            h,
                            m,
                            s,
                            u,
                            level,
                            msg@,
                            thread@,
                        );
                    assert(Logger::logged(
                        *old(self),
                        *self,
                        res,
                        gh,
                        gm,
                        gs,
                        gu,
                        level,
                        msg@,
                        thread@,
                    ));
                }
                return res;
            },
        };
        let ghost (gh, gm, gs, gu) = choose|h: int, m: int, s: int, u: int|
            record_rendered(
                self.spec_ts_format(),
                self.spec_rec_format(),
                Ok::<String, LogError>(rec),
                h,
                m,
                s,
                u,
                level,
                msg@,
                thread@,
            );
        let wr = self.out_stream.write(rec.as_str());
        proof {
            assert(Logger::logged(
                *old(self),
                *self,
                wr,
                gh,
                gm,
                gs,
                gu,
                level,
                msg@,
                thread@,
            ));
        }
        wr
    }
}

/// Records reach a buffer sink whole and in call order: over two
/// consecutive `log` steps that passed the severity gate and rendered
/// successfully, the sink's contents grow by the first record and then the
/// second, never interleaved.  (Callers that serialize their calls through
/// a lock therefore see the records in lock-acquisition order.)
pub proof fn lemma_records_in_order(
    l0: Logger,
    l1: Logger,
    l2: Logger,
    r1: Result<(), LogError>,
    r2: Result<(), LogError>,
    h1: int,
    m1: int,
    s1: int,
    u1: int,
    h2: int,
    m2: int,
    s2: int,
    u2: int,
    level1: LogLevel,
    msg1: Seq<char>,
    thread1: Seq<char>,
    level2: LogLevel,
    msg2: Seq<char>,
    thread2: Seq<char>,
)
    requires
        l0.out_stream is Buffer,
        Logger::logged(l0, l1, r1, h1, m1, s1, u1, level1, msg1, thread1),
        Logger::logged(l1, l2, r2, h2, m2, s2, u2, level2, msg2, thread2),
        spec_record(
            l0.spec_ts_format(),
            l0.spec_rec_format(),
            h1,
            m1,
            s1,
            u1,
            level1,
            msg1,
            thread1,
        ) is Ok,
        spec_record(
            l1.spec_ts_format(),
            l1.spec_rec_format(),
            h2,
            m2,
            s2,
            u2,
            level2,
            msg2,
            thread2,
        ) is Ok,
    ensures
        l2.out_stream.contents() == l0.out_stream.contents() + spec_record(
            l0.spec_ts_format(),
            l0.spec_rec_format(),
            h1,
            m1,
            s1,
            u1,
            level1,
            msg1,
            thread1,
        )->Ok_0 + spec_record(
            l1.spec_ts_format(),
            l1.spec_rec_format(),
            h2,
            m2,
            s2,
            u2,
            level2,
            msg2,
            thread2,
        )->Ok_0,
{
}

} // verus!
