use crate::decimal::{decimal, decimal_string, digits_value, is_numeral, lemma_decimal_reads_back};
use vstd::prelude::*;
use vstd::string::*;

verus! {

#[verifier::external_type_specification]
#[verifier::external_body]
pub struct ExInstant(std::time::Instant);

/// Reads the clock with `std::time::Instant::now`. What it returns depends on
/// the time, so nothing is stated of it.
#[verifier::external_body]
fn instant_now() -> (now: std::time::Instant) {
    std::time::Instant::now()
}

/// The time since `start`, by `std::time::Instant::elapsed`. It depends on
/// the clock, so nothing is stated of it.
#[verifier::external_body]
fn elapsed_since(start: &std::time::Instant) -> (elapsed: core::time::Duration) {
    start.elapsed()
}

/// A duration in whole microseconds, by `Duration::as_micros`. The duration
/// is opaque here, so nothing is stated of the number.
#[verifier::external_body]
fn duration_micros(duration: &core::time::Duration) -> (micros: u128) {
    duration.as_micros()
}

/// The timing line written for a function that ran `micros` microseconds:
/// `[timed_execution]:[function:NAME]:[MS ms, MICROS ns]` and a newline,
/// where MS is the whole number of milliseconds.
pub open spec fn timing_line(function: Seq<char>, micros: nat) -> Seq<char> {
    "[timed_execution]:[function:"@ + function + "]:["@ + decimal(micros / 1000) + " ms, "@
        + decimal(micros) + " ns]\n"@
}

/// The timing line for a function that ran `micros` microseconds names the
/// function, then gives a numeral for the whole milliseconds (`micros / 1000`)
/// and a numeral for the microseconds themselves, in the fixed frame
/// `[timed_execution]:[function:NAME]:[MS ms, MICROS ns]` and a newline.
pub proof fn lemma_timing_line_fields(function: Seq<char>, micros: nat)
    ensures
        exists|ms: Seq<char>, us: Seq<char>|
            #![trigger digits_value(ms), digits_value(us)]
            is_numeral(ms) && is_numeral(us) && digits_value(ms) == micros / 1000 && digits_value(us)
                == micros && timing_line(function, micros) == "[timed_execution]:[function:"@ + function
                + "]:["@ + ms + " ms, "@ + us + " ns]\n"@,
{
    let ms = decimal(micros / 1000);
    let us = decimal(micros);
    lemma_decimal_reads_back(micros / 1000);
    lemma_decimal_reads_back(micros);
    assert(digits_value(ms) == micros / 1000 && digits_value(us) == micros);
}

/// Formats the timing line for `function` having run `micros` microseconds.
pub fn timing_message(function: &str, micros: u128) -> (line: String)
    ensures
        line@ == timing_line(function@, micros as nat),
{
    let mut line = String::from_str("[timed_execution]:[function:");
    line.append(function);
    line.append("]:[");
    let ms = decimal_string(micros / 1000);
    line.append(ms.as_str());
    line.append(" ms, ");
    let us = decimal_string(micros);
    line.append(us.as_str());
    line.append(" ns]\n");
    line
}

/// A running measurement of how long a function takes: the function's name
/// and the moment it started.
pub struct LogTime<'a> {
    function: &'a str,
    start: std::time::Instant,
}

/// Starts timing the function named `function`, from the clock reading
/// taken now.
pub fn log_time(function: &'static str) -> (timer: LogTime<'static>)
    ensures
        timer.function_name() == function@,
{
    let now = instant_now();
    LogTime::new(function, now)
}

impl<'a> LogTime<'a> {
    /// The name of the function being timed.
    pub closed spec fn function_name(&self) -> Seq<char> {
        self.function@
    }

    /// The moment the timer started.
    pub closed spec fn started_at(&self) -> std::time::Instant {
        self.start
    }

    /// A timer for the function named `function`, started at `start`.
    pub fn new(function: &'a str, start: std::time::Instant) -> (timer: LogTime<'a>)
        ensures
            timer.function_name() == function@,
            timer.started_at() == start,
    {
        LogTime { function, start }
    }

    /// The name of the function being timed.
    pub fn function(&self) -> (name: &'a str)
        ensures
            name@ == self.function_name(),
    {
        self.function
    }

    /// Microseconds since the timer started.
    pub fn elapsed_micros(&self) -> u128 {
        let elapsed = elapsed_since(&self.start);
        duration_micros(&elapsed)
    }

    /// The timing line for the time elapsed so far: it names the function
    /// being timed and gives some elapsed time in milliseconds and
    /// microseconds.
    pub fn report(&self) -> (line: String)
        ensures
            exists|micros: u128| line@ == #[trigger] timing_line(self.function_name(), micros as nat),
    {
        let micros = self.elapsed_micros();
        let line = timing_message(self.function, micros);
        assert(line@ == timing_line(self.function_name(), micros as nat));
        line
    }
}

} // verus!
