//! The logger: a threshold, a destination, and the calls that turn a message
//! into the text of a record and say where it goes.

use crate::ansi::{remove_ansi, stripped};
use crate::caller::{get_callee, is_callee_note, CallSite, CallerSource};
use crate::clock::{is_stamp, timestamp};
use crate::level::{threshold_for, LogLevel};
use crate::payload::{index_label, payload_text, serialize};
use crate::record::{compose, is_emitted_text, is_site_note, Pieces, Record};
use crate::style::{dim, dim_code, paint, styled_as};
use vstd::prelude::*;

verus! {

/// Where the text of a record goes.
#[derive(Clone, Debug)]
pub enum Destination {
    /// To standard output, with its colours.
    Stdout,
    /// To the end of the file with this path, without any escape sequence.
    File(String),
}

impl Destination {
    /// The path of the file, if the text goes to one.
    pub open spec fn path(self) -> Option<Seq<char>> {
        match self {
            Destination::Stdout => None,
            Destination::File(path) => Some(path@),
        }
    }
}

/// What a logging call hands over for output: the text of one record and
/// its destination.
#[derive(Clone, Debug)]
pub struct Emission {
    pub destination: Destination,
    /// The lines of the record, without the line break that ends it.
    pub text: String,
}

impl Emission {
    /// The characters that are written for the record: its text and the line
    /// break that ends it.
    pub fn line(&self) -> (line: String)
        ensures
            line@ == self.text@.push('\n'),
    {
        proof {
            reveal_strlit("\n");
        }
        let mut line = self.text.clone();
        line.append("\n");
        assert(line@ =~= self.text@.push('\n'));
        line
    }
}

/// The settings of a logger.
pub struct Settings {
    /// Records less severe than this are dropped.
    pub threshold: LogLevel,
    /// The path of the log file; empty where records go to standard output.
    pub file: Seq<char>,
    /// How the place of a logging call is found.
    pub caller_source: CallerSource,
}

impl Settings {
    /// The file that records go to, if they go to one.
    pub open spec fn destination(self) -> Option<Seq<char>> {
        if self.file.len() == 0 {
            None
        } else {
            Some(self.file)
        }
    }

    /// The settings with another log file.
    pub open spec fn with_file(self, path: Seq<char>) -> Settings {
        Settings { file: path, ..self }
    }

    /// The settings without a log file.
    pub open spec fn without_file(self) -> Settings {
        Settings { file: Seq::empty(), ..self }
    }

    /// The settings with another threshold.
    pub open spec fn with_threshold(self, threshold: LogLevel) -> Settings {
        Settings { threshold, ..self }
    }

    /// The record of a call with the time that was read when it was made.
    pub open spec fn observed(
        level: LogLevel,
        tag: Seq<char>,
        message: Seq<char>,
        site: Option<Option<CallSite>>,
        payload: Option<Seq<char>>,
        stamp: Seq<char>,
    ) -> Record {
        Record { level, tag, message, stamp, site, payload }
    }

    /// Whether `out` is what a logger with these settings makes of a record
    /// whose place of call is given: nothing where the level does not pass
    /// the threshold; else the destination that is set, and the text of the
    /// record for some time. `site` is `None` where the record bears no note
    /// on the place of the call, and holds `None` where the place could not
    /// be found.
    pub open spec fn is_rendering(
        self,
        out: Option<Emission>,
        level: LogLevel,
        tag: Seq<char>,
        message: Seq<char>,
        site: Option<Option<CallSite>>,
        payload: Option<Seq<char>>,
    ) -> bool {
        match out {
            None => !level.passes(self.threshold),
            Some(emission) => {
                &&& level.passes(self.threshold)
                &&& emission.destination.path() == self.destination()
                &&& exists|stamp: Seq<char>|
                    {
                        &&& is_stamp(stamp)
                        &&& is_emitted_text(
                            emission.text@,
                            self.destination() is Some,
                            #[trigger] Settings::observed(
                                level,
                                tag,
                                message,
                                site,
                                payload,
                                stamp,
                            ),
                        )
                    }
            },
        }
    }

    /// Whether `out` is what a logger with these settings hands over for a
    /// logging call. A call that asks for no note on its place gives the
    /// record without one. A call that asks for one gives the record for
    /// some place, found or not; it is never found where the logger has no
    /// means to look for it.
    pub open spec fn is_outcome(
        self,
        out: Option<Emission>,
        level: LogLevel,
        tag: Seq<char>,
        message: Seq<char>,
        at: bool,
        payload: Option<Seq<char>>,
    ) -> bool {
        if at {
            exists|site: Option<CallSite>|
                {
                    &&& #[trigger] self.is_rendering(
                        out,
                        level,
                        tag,
                        message,
                        Some(site),
                        payload,
                    )
                    &&& self.caller_source is Unavailable ==> site is None
                }
        } else {
            self.is_rendering(out, level, tag, message, None, payload)
        }
    }
}

/// The text of the payload that a call hands over, if it hands one over.
pub open spec fn payload_of(object: Option<Result<String, serde_json::Error>>) -> Option<
    Seq<char>,
> {
    match object {
        Some(outcome) => Some(payload_text(outcome)),
        None => None,
    }
}

/// A logger. It holds a threshold and the path of a log file, and does no
/// output itself: each logging call returns what is to be written, and where.
pub struct Logger {
    log_level: LogLevel,
    log_file: String,
    caller_source: CallerSource,
}

impl View for Logger {
    type V = Settings;

    closed spec fn view(&self) -> Settings {
        Settings {
            threshold: self.log_level,
            file: self.log_file@,
            caller_source: self.caller_source,
        }
    }
}

impl Logger {
    /// A logger with the given threshold. Records go to `log_file`, or to
    /// standard output where there is none or its path is empty.
    pub fn new(log_level: LogLevel, log_file: Option<&str>) -> (logger: Logger)
        ensures
            logger@ == (Settings {
                threshold: log_level,
                file: match log_file {
                    Some(path) => path@,
                    None => Seq::empty(),
                },
                caller_source: CallerSource::Stack,
            }),
    {
        let log_file = match log_file {
            Some(path) => path.to_string(),
            None => String::new(),
        };
        Logger { log_level, log_file, caller_source: CallerSource::Stack }
    }

    /// A logger that writes to standard output, with the threshold that
    /// `setting` asks for: `Info` where there is no setting or it names no
    /// level.
    pub fn from_setting(setting: Option<&str>) -> (logger: Logger)
        ensures
            logger@ == (Settings {
                threshold: threshold_for(
                    match setting {
                        Some(name) => Some(name@),
                        None => None,
                    },
                ),
                file: Seq::empty(),
                caller_source: CallerSource::Stack,
            }),
    {
        Logger {
            log_level: LogLevel::from_setting(setting),
            log_file: String::new(),
            caller_source: CallerSource::Stack,
        }
    }

    /// Sends the records that follow to the file `file_name`; an empty name
    /// sends them to standard output.
    pub fn set_file(&mut self, file_name: &str)
        ensures
            final(self)@ == old(self)@.with_file(file_name@),
    {
        self.log_file = file_name.to_string();
    }

    /// Sends the records that follow to standard output.
    pub fn remove_file(&mut self)
        ensures
            final(self)@ == old(self)@.without_file(),
    {
        self.log_file = String::new();
    }

    /// Sets the threshold for the records that follow.
    pub fn set_log_level(&mut self, log_level: LogLevel)
        ensures
            final(self)@ == old(self)@.with_threshold(log_level),
    {
        self.log_level = log_level;
    }

    /// Sets how the place of a logging call is found.
    pub fn set_caller_source(&mut self, caller_source: CallerSource)
        ensures
            final(self)@ == (Settings { caller_source, ..old(self)@ }),
    {
        self.caller_source = caller_source;
    }

    /// The threshold.
    pub fn log_level(&self) -> (level: LogLevel)
        ensures
            level == self@.threshold,
    {
        self.log_level
    }

    /// The path of the log file; empty where records go to standard output.
    pub fn log_file(&self) -> (path: &str)
        ensures
            path@ == self@.file,
    {
        self.log_file.as_str()
    }

    /// Says where `text` goes, and strips it of every escape sequence where
    /// it goes to a file.
    fn route(&self, text: String) -> (emission: Emission)
        ensures
            emission.destination.path() == self@.destination(),
            emission.text@ == if self@.destination() is Some {
                stripped(text@)
            } else {
                text@
            },
    {
        if self.log_file.as_str().unicode_len() > 0 {
            let plain = remove_ansi(text.as_str());
            Emission { destination: Destination::File(self.log_file.clone()), text: plain }
        } else {
            Emission { destination: Destination::Stdout, text }
        }
    }

    /// How the place of a logging call is found.
    pub fn caller_source(&self) -> (source: CallerSource)
        ensures
            source == self@.caller_source,
    {
        self.caller_source
    }

    /// Makes a record at `level`, if the level passes the threshold: its head
    /// line, a line on the place of the call where `site` holds one (found
    /// or not), and a line with the payload where there is one.
    pub fn render(
        &self,
        message: &str,
        tag: &str,
        level: LogLevel,
        site: Option<Option<CallSite>>,
        object: Option<Result<String, serde_json::Error>>,
    ) -> (out: Option<Emission>)
        ensures
            self@.is_rendering(out, level, tag@, message@, site, payload_of(object)),
    {
        if !level.is_emitted_at(self.log_level) {
            return None;
        }
        let colour = level.get_colour();
        let stamp = timestamp();
        let ghost raw_stamp = choose|raw: Seq<char>| #[trigger]
            is_stamp(raw) && styled_as(stamp@, raw, dim_code());
        let note = match &site {
            Some(place) => {
                let note = get_callee(place);
                let shown = dim(note.as_str());
                proof {
                    assert(is_callee_note(note@, *place) && styled_as(shown@, note@, dim_code()));
                    assert(is_site_note(shown@, *place));
                }
                Some(shown)
            },
            None => None,
        };
        let payload = match object {
            Some(outcome) => {
                proof {
                    reveal_strlit("[1]");
                    assert("[1]"@ =~= index_label());
                }
                let body = serialize(outcome);
                Some((dim("[1]"), dim(body.as_str())))
            },
            None => None,
        };
        let pieces = Pieces {
            stamp,
            level: level.get_tag(),
            tag: paint(tag, colour),
            message: paint(message, colour),
            site: note,
            payload,
        };
        let text = compose(&pieces);
        let emission = self.route(text);
        proof {
            let record = Settings::observed(
                level,
                tag@,
                message@,
                site,
                payload_of(object),
                raw_stamp,
            );
            assert(record.is_shown_as(pieces@));
            assert(is_emitted_text(emission.text@, self@.destination() is Some, record));
        }
        Some(emission)
    }

    /// Makes the record of a call at `level`, if the level passes the
    /// threshold. Where `at` asks for it, the place from which `write` was
    /// called is looked for and noted in the record.
    #[inline(never)]
    pub fn write(
        &self,
        message: &str,
        tag: &str,
        at: bool,
        level: LogLevel,
        object: Option<Result<String, serde_json::Error>>,
    ) -> (out: Option<Emission>)
        ensures
            self@.is_outcome(out, level, tag@, message@, at, payload_of(object)),
    {
        let site = if !at {
            None
        } else if level.is_emitted_at(self.log_level) {
            Some(self.caller_source.locate())
        } else {
            Some(None)
        };
        let out = self.render(message, tag, level, site, object);
        proof {
            if at {
                assert(self@.is_rendering(
                    out,
                    level,
                    tag@,
                    message@,
                    Some(site->0),
                    payload_of(object),
                ));
            }
        }
        out
    }

    /// Makes the record of a call at `level` that has a message and a tag
    /// only: one line, if the level passes the threshold.
    pub fn write_single(&self, message: &str, tag: &str, level: LogLevel) -> (out: Option<
        Emission,
    >)
        ensures
            self@.is_outcome(out, level, tag@, message@, false, None),
    {
        self.render(message, tag, level, None, None)
    }

    /// Makes the record of a call at level `Silly`, with the payload as its
    /// serialization came out and, where `at` asks for it, a note on the
    /// place from which `silly` was called.
    #[inline(never)]
    pub fn silly(
        &self,
        message: &str,
        tag: &str,
        at: bool,
        object: Result<String, serde_json::Error>,
    ) -> (out: Option<Emission>)
        ensures
            self@.is_outcome(
                out,
                LogLevel::Silly,
                tag@,
                message@,
                at,
                Some(payload_text(object)),
            ),
    {
        let level = LogLevel::Silly;
        let site = if !at {
            None
        } else if level.is_emitted_at(self.log_level) {
            Some(self.caller_source.locate())
        } else {
            Some(None)
        };
        let out = self.render(message, tag, level, site, Some(object));
        proof {
            if at {
                assert(self@.is_rendering(
                    out,
                    level,
                    tag@,
                    message@,
                    Some(site->0),
                    Some(payload_text(object)),
                ));
            }
        }
        out
    }

    /// Makes the record of a call at level `Debug`, with the payload as its
    /// serialization came out and, where `at` asks for it, a note on the
    /// place from which `debug` was called.
    #[inline(never)]
    pub fn debug(
        &self,
        message: &str,
        tag: &str,
        at: bool,
        object: Result<String, serde_json::Error>,
    ) -> (out: Option<Emission>)
        ensures
            self@.is_outcome(
                out,
                LogLevel::Debug,
                tag@,
                message@,
                at,
                Some(payload_text(object)),
            ),
    {
        let level = LogLevel::Debug;
        let site = if !at {
            None
        } else if level.is_emitted_at(self.log_level) {
            Some(self.caller_source.locate())
        } else {
            Some(None)
        };
        let out = self.render(message, tag, level, site, Some(object));
        proof {
            if at {
                assert(self@.is_rendering(
                    out,
                    level,
                    tag@,
                    message@,
                    Some(site->0),
                    Some(payload_text(object)),
                ));
            }
        }
        out
    }

    /// Makes the record of a call at level `Info`, with the payload as its
    /// serialization came out and, where `at` asks for it, a note on the
    /// place from which `info` was called.
    #[inline(never)]
    pub fn info(
        &self,
        message: &str,
        tag: &str,
        at: bool,
        object: Result<String, serde_json::Error>,
    ) -> (out: Option<Emission>)
        ensures
            self@.is_outcome(
                out,
                LogLevel::Info,
                tag@,
                message@,
                at,
                Some(payload_text(object)),
            ),
    {
        let level = LogLevel::Info;
        let site = if !at {
            None
        } else if level.is_emitted_at(self.log_level) {
            Some(self.caller_source.locate())
        } else {
            Some(None)
        };
        let out = self.render(message, tag, level, site, Some(object));
        proof {
            if at {
                assert(self@.is_rendering(
                    out,
                    level,
                    tag@,
                    message@,
                    Some(site->0),
                    Some(payload_text(object)),
                ));
            }
        }
        out
    }

    /// Makes the record of a call at level `Warn`, with the payload as its
    /// serialization came out and, where `at` asks for it, a note on the
    /// place from which `warn` was called.
    #[inline(never)]
    pub fn warn(
        &self,
        message: &str,
        tag: &str,
        at: bool,
        object: Result<String, serde_json::Error>,
    ) -> (out: Option<Emission>)
        ensures
            self@.is_outcome(
                out,
                LogLevel::Warn,
                tag@,
                message@,
                at,
                Some(payload_text(object)),
            ),
    {
        let level = LogLevel::Warn;
        let site = if !at {
            None
        } else if level.is_emitted_at(self.log_level) {
            Some(self.caller_source.locate())
        } else {
            Some(None)
        };
        let out = self.render(message, tag, level, site, Some(object));
        proof {
            if at {
                assert(self@.is_rendering(
                    out,
                    level,
                    tag@,
                    message@,
                    Some(site->0),
                    Some(payload_text(object)),
                ));
            }
        }
        out
    }

    /// Makes the record of a call at level `Error`, with the payload as its
    /// serialization came out and, where `at` asks for it, a note on the
    /// place from which `error` was called.
    #[inline(never)]
    pub fn error(
        &self,
        message: &str,
        tag: &str,
        at: bool,
        object: Result<String, serde_json::Error>,
    ) -> (out: Option<Emission>)
        ensures
            self@.is_outcome(
                out,
                LogLevel::Error,
                tag@,
                message@,
                at,
                Some(payload_text(object)),
            ),
    {
        let level = LogLevel::Error;
        let site = if !at {
            None
        } else if level.is_emitted_at(self.log_level) {
            Some(self.caller_source.locate())
        } else {
            Some(None)
        };
        let out = self.render(message, tag, level, site, Some(object));
        proof {
            if at {
                assert(self@.is_rendering(
                    out,
                    level,
                    tag@,
                    message@,
                    Some(site->0),
                    Some(payload_text(object)),
                ));
            }
        }
        out
    }

    /// Makes the record of a call at level `Fatal`, with the payload as its
    /// serialization came out and, where `at` asks for it, a note on the
    /// place from which `fatal` was called.
    #[inline(never)]
    pub fn fatal(
        &self,
        message: &str,
        tag: &str,
        at: bool,
        object: Result<String, serde_json::Error>,
    ) -> (out: Option<Emission>)
        ensures
            self@.is_outcome(
                out,
                LogLevel::Fatal,
                tag@,
                message@,
                at,
                Some(payload_text(object)),
            ),
    {
        let level = LogLevel::Fatal;
        let site = if !at {
            None
        } else if level.is_emitted_at(self.log_level) {
            Some(self.caller_source.locate())
        } else {
            Some(None)
        };
        let out = self.render(message, tag, level, site, Some(object));
        proof {
            if at {
                assert(self@.is_rendering(
                    out,
                    level,
                    tag@,
                    message@,
                    Some(site->0),
                    Some(payload_text(object)),
                ));
            }
        }
        out
    }

    /// Makes the one-line record of a call at level `Silly`.
    pub fn silly_single(&self, message: &str, tag: &str) -> (out: Option<Emission>)
        ensures
            self@.is_outcome(out, LogLevel::Silly, tag@, message@, false, None),
    {
        self.write_single(message, tag, LogLevel::Silly)
    }

    /// Makes the one-line record of a call at level `Debug`.
    pub fn debug_single(&self, message: &str, tag: &str) -> (out: Option<Emission>)
        ensures
            self@.is_outcome(out, LogLevel::Debug, tag@, message@, false, None),
    {
        self.write_single(message, tag, LogLevel::Debug)
    }

    /// Makes the one-line record of a call at level `Info`.
    pub fn info_single(&self, message: &str, tag: &str) -> (out: Option<Emission>)
        ensures
            self@.is_outcome(out, LogLevel::Info, tag@, message@, false, None),
    {
        self.write_single(message, tag, LogLevel::Info)
    }

    /// Makes the one-line record of a call at level `Warn`.
    pub fn warn_single(&self, message: &str, tag: &str) -> (out: Option<Emission>)
        ensures
            self@.is_outcome(out, LogLevel::Warn, tag@, message@, false, None),
    {
        self.write_single(message, tag, LogLevel::Warn)
    }

    /// Makes the one-line record of a call at level `Error`.
    pub fn error_single(&self, message: &str, tag: &str) -> (out: Option<Emission>)
        ensures
            self@.is_outcome(out, LogLevel::Error, tag@, message@, false, None),
    {
        self.write_single(message, tag, LogLevel::Error)
    }

    /// Makes the one-line record of a call at level `Fatal`.
    pub fn fatal_single(&self, message: &str, tag: &str) -> (out: Option<Emission>)
        ensures
            self@.is_outcome(out, LogLevel::Fatal, tag@, message@, false, None),
    {
        self.write_single(message, tag, LogLevel::Fatal)
    }
}

} // verus!
