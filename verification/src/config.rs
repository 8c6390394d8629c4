//! Reader configuration: the auto-scroll delay and the directory that is listed.

use vstd::prelude::*;
use vstd::string::StringExecFns;

verus! {

/// The delay between two auto-scroll steps when the reader starts, in milliseconds.
pub const START_DELAY: u64 = 1500;

/// The amount by which one key press changes the auto-scroll delay, in milliseconds.
pub const DELAY_STEP: u64 = 100;

/// Configuration of the reader.
#[derive(Debug)]
pub struct Config {
    /// Delay between two auto-scroll steps, in milliseconds.
    pub delay: u64,
    /// The directory whose `.txt` files are listed.
    pub base: String,
}

impl Default for Config {
    fn default() -> (c: Self)
        ensures
            c.delay == 0,
            c.base@ == Seq::<char>::empty(),
    {
        Config { delay: 0, base: String::new() }
    }
}

/// What the delay becomes after the reader is made slower.
pub open spec fn spec_faster_delay(delay: u64) -> int {
    delay + DELAY_STEP
}

/// What the delay becomes after the reader is made faster: one step shorter
/// when it is longer than one step, else unchanged.
pub open spec fn spec_slower_delay(delay: u64) -> int {
    if delay > DELAY_STEP {
        delay - DELAY_STEP
    } else {
        delay as int
    }
}

impl Config {
    /// The configuration the reader starts with: the start delay, and the
    /// directory given on the command line, or the current directory.
    pub fn from_arg(dir: Option<String>) -> (c: Config)
        ensures
            c.delay == START_DELAY,
            dir is Some ==> c.base@ == dir->0@,
            dir is None ==> c.base@ == "."@,
    {
        let base = match dir {
            Some(d) => d,
            None => String::from_str("."),
        };
        Config { delay: START_DELAY, base }
    }

    /// Lengthens the delay by one step (bound to F5).
    pub fn faster(&mut self)
        requires
            old(self).delay + DELAY_STEP <= u64::MAX,
        ensures
            final(self).delay == spec_faster_delay(old(self).delay),
            final(self).base == old(self).base,
    {
        self.delay = self.delay + DELAY_STEP;
    }

    /// Shortens the delay by one step when it is longer than one step (bound
    /// to F6).
    pub fn slower(&mut self)
        ensures
            final(self).delay == spec_slower_delay(old(self).delay),
            final(self).base == old(self).base,
    {
        if self.delay > DELAY_STEP {
            self.delay = self.delay - DELAY_STEP;
        }
    }
}

/// One F6 press never lengthens the delay and never takes a positive delay
/// to zero.
pub proof fn lemma_slower_keeps_positive(delay: u64)
    requires
        delay > 0,
    ensures
        0 < spec_slower_delay(delay) <= delay,
{
}

/// F5 then F6 brings a positive delay back to where it was.
pub proof fn lemma_slower_undoes_faster(delay: u64)
    requires
        delay > 0,
        delay + DELAY_STEP <= u64::MAX,
    ensures
        spec_slower_delay(spec_faster_delay(delay) as u64) == delay,
{
}

/// F6 then F5 brings the delay back to where it was, as long as F6 changed it.
pub proof fn lemma_faster_undoes_slower(delay: u64)
    requires
        delay > DELAY_STEP,
    ensures
        spec_faster_delay(spec_slower_delay(delay) as u64) == delay,
{
}

} // verus!
