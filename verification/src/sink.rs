//! The report sink: unknown-class events stream in, a verdict comes out.

use vstd::prelude::*;
use std::io::Write;
use crate::validate::UsageEvent;

verus! {

/// Takes the stream of unknown-class events of one pass and reduces it to a
/// validity verdict. Within a pass, validity only ever falls: one event
/// makes the pass invalid for good.
pub trait Sink: Sized {
    /// Whether the pass is still clean.
    spec fn sink_valid(&self) -> bool;

    /// Whether per-event and summary output is suppressed. The flag gates
    /// rendering only and stands for the whole pass.
    spec fn sink_quiet(&self) -> bool;

    /// Accepts one unknown-class occurrence.
    fn send(&mut self, event: &UsageEvent)
        ensures
            !final(self).sink_valid(),
            final(self).sink_quiet() == old(self).sink_quiet(),
    ;

    /// Ends the pass and hands out the verdict.
    fn done(self) -> (valid: bool)
        ensures
            valid == self.sink_valid(),
    ;
}

/// Writes one unknown-class occurrence to standard error.
///
/// Relies on `std::io::Stderr` and the `writeln` macro for the write; the
/// line's content is given by the arguments alone and nothing is promised of
/// the write.
#[verifier::external_body]
fn print_unknown(class: &str, path: &str, line_number: u64) {
    let _ = writeln!(std::io::stderr(), "\"{}\" in \"{}:{}\"", class, path, line_number);
}

/// Writes the clean-pass summary line to standard output.
///
/// Relies on `std::io::Stdout` and the `writeln` macro; nothing is promised
/// of the write.
#[verifier::external_body]
fn print_all_valid() {
    let _ = writeln!(std::io::stdout(), "Classes are all valid");
}

/// Writes the failed-pass summary line to standard error.
///
/// Relies on `std::io::Stderr` and the `writeln` macro; nothing is promised
/// of the write.
#[verifier::external_body]
fn print_unknown_found() {
    let _ = writeln!(std::io::stderr(), "Unknown classes found");
}

/// The console sink: prints one line per occurrence and a summary, unless
/// quiet; the verdict is kept either way.
pub struct Console {
    quiet: bool,
    valid: bool,
}

impl Console {
    /// A fresh sink for one pass: clean until an event arrives.
    pub fn new(quiet: bool) -> (r: Console)
        ensures
            r.sink_valid(),
            r.sink_quiet() == quiet,
    {
        Console { quiet, valid: true }
    }

    /// Whether the pass is still clean.
    pub fn is_valid(&self) -> (r: bool)
        ensures
            r == self.sink_valid(),
    {
        self.valid
    }
}

impl Sink for Console {
    closed spec fn sink_valid(&self) -> bool {
        self.valid
    }

    closed spec fn sink_quiet(&self) -> bool {
        self.quiet
    }

    fn send(&mut self, event: &UsageEvent) {
        if !self.quiet {
            print_unknown(
                event.class.as_str(),
                event.path.as_str(),
                event.line_number,
            );
        }
        self.valid = false;
    }

    fn done(self) -> (valid: bool) {
        if !self.quiet {
            if self.valid {
                print_all_valid();
            } else {
                print_unknown_found();
            }
        }
        self.valid
    }
}

} // verus!
