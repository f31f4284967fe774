//! Daily log files.

use crate::clock::log_file_name;
use crate::clock::stamp;
use crate::clock::stamped;
use crate::clock::ClockReading;
use crate::text::texts;
use vstd::prelude::*;

verus! {

/// Days for which a log file is kept after it was last written.
pub const DAYS_KEPT: i64 = 7;

/// The messages that wait to be written, oldest first.
pub struct LogManager {
    pub tx: Vec<String>,
}

impl LogManager {
    /// No messages.
    pub fn new() -> (r: Self)
        ensures
            r.tx@.len() == 0,
    {
        LogManager { tx: Vec::new() }
    }

    /// Adds a message behind those that wait already.
    pub fn log(&mut self, msg: String)
        ensures
            texts(final(self).tx@) == texts(old(self).tx@).push(msg@),
    {
        let ghost before = self.tx@;
        self.tx.push(msg);
        assert(texts(self.tx@) =~= texts(before).push(msg@));
    }

    /// The messages that wait, each with the time before it; none wait then.
    fn take_lines(&mut self, clock: &ClockReading) -> (r: Vec<String>)
        ensures
            texts(r@) == stamped_lines(*clock, texts(old(self).tx@)),
            final(self).tx@.len() == 0,
    {
        let mut r: Vec<String> = Vec::new();
        let mut i: usize = 0;
        while i < self.tx.len()
            invariant
                self.tx@ == old(self).tx@,
                i <= self.tx@.len(),
                r@.len() == i,
                forall|j: int|
                    0 <= j < i ==> (#[trigger] r@[j])@ == stamped(*clock, self.tx@[j]@),
            decreases self.tx@.len() - i,
        {
            r.push(clock.stamped(self.tx[i].as_str()));
            i = i + 1;
        }
        assert(texts(r@) =~= stamped_lines(*clock, texts(old(self).tx@)));
        self.tx = Vec::new();
        r
    }

    /// Hands over the messages that wait, with the time before each, and says which
    /// file they belong to. The lines and the file are those of one reading of the
    /// clock, so every line goes to the file of its own day.
    pub fn writer_thread(
        &mut self,
        writer: &mut LogWriter,
        clock: &ClockReading,
        file_open: bool,
    ) -> (r: LogStep)
        ensures
            r.file@ == log_file_name(*clock),
            texts(r.lines@) == stamped_lines(*clock, texts(old(self).tx@)),
            r.opens == opens_file(old(writer).day, clock.day, file_open),
            r.opens == (clock.day != old(writer).day || !file_open),
            final(writer).day == clock.day,
            final(self).tx@.len() == 0,
    {
        let opens = writer.roll(clock, file_open);
        LogStep { file: clock.log_file_name(), opens, lines: self.take_lines(clock) }
    }
}

/// Whether a file has to be opened: on another day than that of the file, and where none is
/// open.
pub open spec fn opens_file(file_day: i32, today: i32, file_open: bool) -> bool {
    !file_open || file_day != today
}

/// Whether a file last written on one day is too old on another.
pub open spec fn is_too_old(modified_day: i32, today: i32) -> bool {
    modified_day < today - DAYS_KEPT
}

/// Messages with the time before each.
pub open spec fn stamped_lines(clock: ClockReading, messages: Seq<Seq<char>>) -> Seq<Seq<char>> {
    messages.map_values(|message: Seq<char>| stamped(clock, message))
}

/// What is to be written: the file, whether it has to be opened before, and the
/// lines. Where a file is opened, old ones are to be removed.
#[derive(Debug)]
pub struct LogStep {
    pub file: String,
    pub opens: bool,
    pub lines: Vec<String>,
}

/// The writer's place: the day whose log file is the current one.
pub struct LogWriter {
    pub day: i32,
}

impl LogWriter {
    /// A writer that starts on a day.
    pub fn new(clock: &ClockReading) -> (r: Self)
        ensures
            r.day == clock.day,
    {
        LogWriter { day: clock.day }
    }

    /// Whether another file has to be opened: on a new day, and where none is open.
    fn roll(&mut self, clock: &ClockReading, file_open: bool) -> (r: bool)
        ensures
            r == (clock.day != old(self).day || !file_open),
            final(self).day == clock.day,
    {
        let opens = clock.day != self.day || !file_open;
        self.day = clock.day;
        opens
    }

    /// Whether a file last written on one day is to be removed on another: where
    /// more than a week lies between.
    pub fn is_expired(modified_day: i32, today: i32) -> (r: bool)
        ensures
            r == is_too_old(modified_day, today),
            r == (modified_day < today - DAYS_KEPT),
    {
        (modified_day as i64) < today as i64 - DAYS_KEPT
    }
}

// ---------------------------------------------------------------------------
// Laws
// ---------------------------------------------------------------------------

/// Every message that waits is written as one line, in its place, with the time in square
/// brackets before it and the message unchanged behind that.
pub proof fn law_every_message_is_written(
    clock: ClockReading,
    messages: Seq<Seq<char>>,
    i: int,
)
    requires
        0 <= i < messages.len(),
    ensures
        stamped_lines(clock, messages).len() == messages.len(),
        stamped_lines(clock, messages)[i] == "["@ + stamp(clock) + "] "@ + messages[i],
{
}

/// A file is opened for a new day, and where none is open; otherwise the one that is open is
/// written on.
pub proof fn law_every_day_has_its_file(file_day: i32, today: i32)
    ensures
        opens_file(file_day, today, false),
        opens_file(file_day, today, true) <==> file_day != today,
{
}

/// A file goes when it was last written more than seven days ago, and not before.
pub proof fn law_old_files_go(modified_day: i32, today: i32)
    ensures
        is_too_old(modified_day, today) <==> today - modified_day > 7,
{
}

} // verus!
