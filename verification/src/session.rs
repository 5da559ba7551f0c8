//! One recording session: its identity, timing and input log.
//!
//! A session owns the input-log sink for its lifetime; the video
//! backend handle lives with the caller, which opens both before the
//! session is handed to the orchestrator.  Instants are microseconds of
//! a monotonic clock, wall-clock times are seconds and microseconds
//! since the epoch, both supplied by the caller.

use vstd::prelude::*;
use vstd::string::StrSliceExecFns;
use vstd::string::StringExecFns;
use crate::events::{Event, Pid};
use crate::hardware::HardwareSpecs;
use crate::input_log::{header_chars, row_chars, InputRecorder, LogEvent};
use crate::metadata::{spec_metadata_json, write_metadata_json};

verus! {

/// Relies on `uuid::Uuid::new_v4` and its `Display` impl: a fresh
/// random identifier rendered in the 36-character hyphenated form.
#[verifier::external_body]
fn fresh_session_id() -> (r: String)
    ensures
        r@.len() == 36,
{
    uuid::Uuid::new_v4().to_string()
}

/// `s` with every occurrence of the extended-length path prefix
/// `\\?\` removed, so the recording path can be handed to tools that
/// do not understand the prefix.
pub open spec fn without_extended_prefix(s: Seq<char>) -> Seq<char>
    decreases s.len(),
{
    if s.len() >= 4 && s.subrange(0, 4) == "\\\\?\\"@ {
        without_extended_prefix(s.skip(4))
    } else if s.len() == 0 {
        Seq::<char>::empty()
    } else {
        s.take(1) + without_extended_prefix(s.drop_first())
    }
}

/// Removes every occurrence of the extended-length path prefix
/// `\\?\` from a path rendered as text.
pub fn strip_extended_prefix(s: &str) -> (r: String)
    ensures
        r@ == without_extended_prefix(s@),
{
    let n = s.unicode_len();
    let mut out = String::new();
    let mut i: usize = 0;
    proof {
        assert(s@.skip(0) =~= s@);
    }
    while i < n
        invariant
            0 <= i <= n == s@.len(),
            without_extended_prefix(s@) =~= out@ + without_extended_prefix(s@.skip(i as int)),
        decreases n - i,
    {
        let marker = n - i >= 4 && s.get_char(i) == '\\' && s.get_char(i + 1) == '\\'
            && s.get_char(i + 2) == '?' && s.get_char(i + 3) == '\\';
        if marker {
            proof {
                reveal_strlit("\\\\?\\");
                assert(s@.skip(i as int).subrange(0, 4) =~= "\\\\?\\"@);
                assert(s@.skip(i as int).skip(4) =~= s@.skip(i + 4));
            }
            i = i + 4;
        } else {
            let piece = s.substring_char(i, i + 1);
            out.append(piece);
            proof {
                reveal_strlit("\\\\?\\");
                let rest = s@.skip(i as int);
                if rest.len() >= 4 {
                    assert(rest.subrange(0, 4) != "\\\\?\\"@) by {
                        reveal_strlit("\\\\?\\");
                        if rest.subrange(0, 4) == "\\\\?\\"@ {
                            assert(rest.subrange(0, 4)[0] == rest[0]);
                            assert(rest.subrange(0, 4)[1] == rest[1]);
                            assert(rest.subrange(0, 4)[2] == rest[2]);
                            assert(rest.subrange(0, 4)[3] == rest[3]);
                        }
                    }
                }
                assert(piece@ =~= rest.take(1));
                assert(rest.drop_first() =~= s@.skip(i + 1));
            }
            i = i + 1;
        }
        proof {
            assert(without_extended_prefix(s@) =~= out@ + without_extended_prefix(
                s@.skip(i as int),
            ));
        }
    }
    proof {
        assert(s@.skip(n as int) =~= Seq::<char>::empty());
        assert(out@ =~= without_extended_prefix(s@));
    }
    out
}

/// One open recording session.
pub struct Recording {
    session_id: String,
    game_exe: String,
    pid: Pid,
    window: u64,
    start_wall_secs: u64,
    start_wall_micros: u32,
    start_instant_micros: u64,
    log: InputRecorder,
}

impl Recording {
    /// The session's random identifier.
    pub closed spec fn spec_session_id(self) -> Seq<char> {
        self.session_id@
    }

    /// The recorded game's executable name.
    pub closed spec fn spec_game_exe(self) -> Seq<char> {
        self.game_exe@
    }

    /// The recorded game's process.
    pub closed spec fn spec_pid(self) -> Pid {
        self.pid
    }

    /// The recorded window's handle.
    pub closed spec fn spec_window(self) -> u64 {
        self.window
    }

    /// Wall-clock start, in whole seconds.
    pub closed spec fn spec_start_wall_secs(self) -> u64 {
        self.start_wall_secs
    }

    /// Monotonic start instant, in microseconds.
    pub closed spec fn spec_start_instant(self) -> u64 {
        self.start_instant_micros
    }

    /// Every log line handed out so far, in order.
    pub closed spec fn spec_log_lines(self) -> Seq<Seq<char>> {
        self.log.lines()
    }

    /// A session that can still record events.
    pub closed spec fn wf(self) -> bool {
        &&& !self.log.is_ended()
        &&& self.start_wall_micros < 1_000_000
        &&& self.session_id@.len() == 36
    }

    /// Opens a session: draws a fresh identifier and emits the log's
    /// header and `START` marker, which the caller persists.
    pub fn start(
        game_exe: String,
        pid: Pid,
        window: u64,
        wall_secs: u64,
        wall_micros: u32,
        instant_micros: u64,
    ) -> (r: (Recording, Vec<String>))
        requires
            wall_micros < 1_000_000,
        ensures
            r.0.wf(),
            r.0.spec_session_id().len() == 36,
            r.0.spec_game_exe() == game_exe@,
            r.0.spec_pid() == pid,
            r.0.spec_window() == window,
            r.0.spec_start_wall_secs() == wall_secs,
            r.0.spec_start_instant() == instant_micros,
            r.0.spec_log_lines() =~= seq![
                header_chars() + "\n"@,
                row_chars(wall_secs as nat, wall_micros as nat, LogEvent::Start),
            ],
            r.1@.len() == 2,
            r.1@[0]@ == r.0.spec_log_lines()[0],
            r.1@[1]@ == r.0.spec_log_lines()[1],
    {
        let session_id = fresh_session_id();
        let (log, lines) = InputRecorder::start(wall_secs, wall_micros);
        let recording = Recording {
            session_id,
            game_exe,
            pid,
            window,
            start_wall_secs: wall_secs,
            start_wall_micros: wall_micros,
            start_instant_micros: instant_micros,
            log,
        };
        (recording, lines)
    }

    /// The recorded game's executable name.
    pub fn game_exe(&self) -> (r: &String)
        ensures
            r@ == self.spec_game_exe(),
    {
        &self.game_exe
    }

    /// The recorded game's process.
    pub fn pid(&self) -> (r: Pid)
        ensures
            r == self.spec_pid(),
    {
        self.pid
    }

    /// The recorded window's handle.
    pub fn window(&self) -> (r: u64)
        ensures
            r == self.spec_window(),
    {
        self.window
    }

    /// The session's monotonic start instant, in microseconds.
    pub fn start_instant(&self) -> (r: u64)
        ensures
            r == self.spec_start_instant(),
    {
        self.start_instant_micros
    }

    /// Microseconds since the session started; zero if the clock reads
    /// earlier than the start.
    pub fn elapsed_micros(&self, now_micros: u64) -> (r: u64)
        ensures
            r == if now_micros >= self.spec_start_instant() {
                now_micros - self.spec_start_instant()
            } else {
                0
            },
    {
        if now_micros >= self.start_instant_micros {
            now_micros - self.start_instant_micros
        } else {
            0
        }
    }

    /// Records one input event; the returned row is the line the
    /// caller appends to the log file.
    pub fn seen_input(&mut self, e: &Event, wall_secs: u64, wall_micros: u32) -> (row: String)
        requires
            old(self).wf(),
            wall_micros < 1_000_000,
        ensures
            final(self).wf(),
            row@ == row_chars(wall_secs as nat, wall_micros as nat, LogEvent::Input(*e)),
            final(self).spec_log_lines() =~= old(self).spec_log_lines().push(row@),
            final(self).spec_session_id() == old(self).spec_session_id(),
            final(self).spec_game_exe() == old(self).spec_game_exe(),
            final(self).spec_pid() == old(self).spec_pid(),
            final(self).spec_window() == old(self).spec_window(),
            final(self).spec_start_wall_secs() == old(self).spec_start_wall_secs(),
            final(self).spec_start_instant() == old(self).spec_start_instant(),
    {
        self.log.seen_input(e, wall_secs, wall_micros)
    }

    /// Closes the session: emits the log's `END` marker and the
    /// metadata document, both for the caller to persist.  The caller
    /// supplies the end wall-clock time, the current instant, the
    /// machine's identifier and the probed hardware description, if
    /// any.
    pub fn stop(
        self,
        end_wall_secs: u64,
        end_wall_micros: u32,
        now_instant_micros: u64,
        hardware_id: &str,
        specs: Option<&HardwareSpecs>,
    ) -> (r: (String, String))
        requires
            self.wf(),
            end_wall_micros < 1_000_000,
        ensures
            r.0@ == row_chars(end_wall_secs as nat, end_wall_micros as nat, LogEvent::End),
            r.1@ == spec_metadata_json(
                self.spec_session_id(),
                self.spec_game_exe(),
                hardware_id@,
                self.spec_start_wall_secs() as nat,
                end_wall_secs as nat,
                (if now_instant_micros >= self.spec_start_instant() {
                    now_instant_micros - self.spec_start_instant()
                } else {
                    0
                }) as nat,
                match specs {
                    Option::Some(h) => Option::Some(*h),
                    Option::None => Option::<HardwareSpecs>::None,
                },
            ),
    {
        let duration_micros: u64 = if now_instant_micros >= self.start_instant_micros {
            now_instant_micros - self.start_instant_micros
        } else {
            0
        };
        let (_, end_row) = self.log.stop(end_wall_secs, end_wall_micros);
        let doc = write_metadata_json(
            self.session_id.as_str(),
            self.game_exe.as_str(),
            hardware_id,
            self.start_wall_secs,
            end_wall_secs,
            duration_micros,
            specs,
        );
        (end_row, doc)
    }
}

} // verus!
