use vstd::prelude::*;

use crate::audio::{AudioCommand, StopReason, should_stop_on_silence};

verus! {

/// Time elapsed from `then` to `now` on a monotonic clock (nanoseconds),
/// zero when `then` is later.
pub open spec fn elapsed(now: u128, then: u128) -> u128 {
    if now >= then {
        (now - then) as u128
    } else {
        0
    }
}

fn elapsed_exec(now: u128, then: u128) -> (r: u128)
    ensures
        r == elapsed(now, then),
{
    if now >= then {
        now - then
    } else {
        0
    }
}

/// What the recording loop received on its command channel.
#[derive(Debug, Clone, Copy, PartialEq, Eq, Structural)]
pub enum Received {
    /// Nothing waiting.
    Nothing,
    /// A command.
    Command(AudioCommand),
    /// The sender is gone.
    Disconnected,
}

/// What the loop does with the audio stream after a command.
#[derive(Debug, Clone, Copy, PartialEq, Eq, Structural)]
pub enum CommandOutcome {
    /// Leave the loop and transcribe.
    Stop,
    /// Pause the stream and show a zero level.
    Pause,
    /// Resume the stream.
    Resume,
    /// Nothing to do.
    Continue,
}

/// The mutable state of a recording loop. Times are nanoseconds on one
/// monotonic clock.
#[derive(Debug, Clone, Copy, PartialEq, Eq, Structural)]
pub struct RecordLoop {
    pub paused: bool,
    /// Debug output was printed on the current line.
    pub has_output: bool,
    /// Characters of the partial result already printed.
    pub segment_printed: usize,
    /// Longest partial result seen, in bytes.
    pub max_partial_len: usize,
    /// When the text (or the level) last grew.
    pub last_growth: u128,
    /// Speech was heard in this recording.
    pub speech_detected: bool,
    /// When speech was last heard.
    pub last_speech: u128,
}

/// The settings of a recording loop, with timeouts in nanoseconds.
#[derive(Debug, Clone, Copy, PartialEq, Eq, Structural)]
pub struct LoopSettings {
    pub vad_enabled: bool,
    pub vad_timeout: u128,
    pub silence_timeout: u128,
    /// The engine streams (takes audio while recording).
    pub streaming: bool,
    pub debug: bool,
}

/// A live partial result of a streaming engine: its length in characters
/// and in bytes.
#[derive(Debug, Clone, Copy, PartialEq, Eq, Structural)]
pub struct Partial {
    pub chars: usize,
    pub bytes: usize,
}

/// What one pass of the loop decided.
#[derive(Debug, Clone, Copy, PartialEq, Eq, Structural)]
pub struct TickOutcome {
    /// Print the partial result from this character on.
    pub print_from: Option<usize>,
    /// Stop recording, and why.
    pub stop: Option<StopReason>,
}

impl RecordLoop {
    /// The state at the start of a recording at time `now`.
    pub fn start(now: u128) -> (r: RecordLoop)
        ensures
            r == (RecordLoop {
                paused: false,
                has_output: false,
                segment_printed: 0,
                max_partial_len: 0,
                last_growth: now,
                speech_detected: false,
                last_speech: now,
            }),
    {
        RecordLoop {
            paused: false,
            has_output: false,
            segment_printed: 0,
            max_partial_len: 0,
            last_growth: now,
            speech_detected: false,
            last_speech: now,
        }
    }

    /// Handles what came on the command channel: stop on a stop command or
    /// a lost sender; toggle the pause (resuming restarts the silence clock
    /// and, in debug mode, a fresh output line).
    pub fn on_command(&mut self, received: Received, now: u128, debug: bool) -> (r: CommandOutcome)
        ensures
            received matches Received::Command(AudioCommand::Stop) ==> r == CommandOutcome::Stop
                && *final(self) == *old(self),
            received is Disconnected ==> r == CommandOutcome::Stop && *final(self) == *old(self),
            received is Nothing ==> r == CommandOutcome::Continue && *final(self) == *old(self),
            received matches Received::Command(AudioCommand::TogglePause) ==> {
                if old(self).paused {
                    &&& r == CommandOutcome::Resume
                    &&& *final(self) == (RecordLoop {
                        paused: false,
                        last_growth: now,
                        has_output: if debug { false } else { old(self).has_output },
                        ..*old(self)
                    })
                } else {
                    &&& r == CommandOutcome::Pause
                    &&& *final(self) == (RecordLoop {
                        paused: true,
                        has_output: if debug { false } else { old(self).has_output },
                        ..*old(self)
                    })
                }
            },
    {
        match received {
            Received::Command(AudioCommand::Stop) => CommandOutcome::Stop,
            Received::Disconnected => CommandOutcome::Stop,
            Received::Nothing => CommandOutcome::Continue,
            Received::Command(AudioCommand::TogglePause) => {
                if self.paused {
                    self.paused = false;
                    self.last_growth = now;
                    if debug {
                        self.has_output = false;
                    }
                    CommandOutcome::Resume
                } else {
                    self.paused = true;
                    if debug {
                        self.has_output = false;
                    }
                    CommandOutcome::Pause
                }
            },
        }
    }

    /// One pass of the loop while not paused, with the current volume
    /// level and (for a streaming engine in debug mode) its partial result:
    /// tracks growth and speech, then decides on an automatic stop.
    pub fn on_tick(&mut self, s: LoopSettings, now: u128, level: u32, partial: Option<Partial>) -> (r:
        TickOutcome)
        requires
            !old(self).paused,
        ensures
            final(self).paused == old(self).paused,
            // growth: by level for batch engines, by partial text length in
            // streaming debug mode
            final(self).last_growth == (if !s.streaming {
                if level > 0 {
                    now
                } else {
                    old(self).last_growth
                }
            } else {
                match partial {
                    Some(p) => if s.debug && p.chars > 0 && p.bytes > old(self).max_partial_len {
                        now
                    } else {
                        old(self).last_growth
                    },
                    None => old(self).last_growth,
                }
            }),
            final(self).max_partial_len == (match partial {
                Some(p) => if s.streaming && s.debug && p.chars > 0 && p.bytes > old(self).max_partial_len {
                    p.bytes
                } else {
                    old(self).max_partial_len
                },
                None => old(self).max_partial_len,
            }),
            final(self).segment_printed == (match partial {
                Some(p) => if s.streaming && s.debug && p.chars > 0 && p.chars > old(self).segment_printed {
                    p.chars
                } else {
                    old(self).segment_printed
                },
                None => old(self).segment_printed,
            }),
            final(self).has_output == (old(self).has_output || r.print_from is Some),
            final(self).speech_detected == (old(self).speech_detected || level > 5),
            final(self).last_speech == (if level > 5 {
                now
            } else {
                old(self).last_speech
            }),
            r.print_from == (match partial {
                Some(p) => if s.streaming && s.debug && p.chars > 0 && p.chars > old(self).segment_printed {
                    Some(old(self).segment_printed)
                } else {
                    None
                },
                None => None,
            }),
            r.stop == (if s.vad_enabled && final(self).speech_detected && elapsed(
                now,
                final(self).last_speech,
            ) >= s.vad_timeout {
                Some(StopReason::Vad)
            } else if elapsed(now, final(self).last_growth) >= s.silence_timeout {
                Some(StopReason::Timeout)
            } else {
                None
            }),
    {
        let mut print_from: Option<usize> = None;
        if s.streaming {
            if s.debug {
                if let Some(p) = partial {
                    if p.chars > 0 {
                        if p.chars > self.segment_printed {
                            print_from = Some(self.segment_printed);
                            self.has_output = true;
                            self.segment_printed = p.chars;
                        }
                        if p.bytes > self.max_partial_len {
                            self.max_partial_len = p.bytes;
                            self.last_growth = now;
                        }
                    }
                }
            }
        } else if level > 0 {
            self.last_growth = now;
        }
        if level > 5 {
            self.speech_detected = true;
            self.last_speech = now;
        }
        let since_speech = elapsed_exec(now, self.last_speech);
        let since_growth = elapsed_exec(now, self.last_growth);
        let stop = should_stop_on_silence(
            s.vad_enabled,
            self.speech_detected,
            since_speech,
            s.vad_timeout,
            since_growth,
            s.silence_timeout,
        );
        TickOutcome { print_from, stop }
    }
}

} // verus!
