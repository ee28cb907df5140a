use crate::decimal::{decimal, decimal_string, digits_value, is_numeral, lemma_decimal_reads_back, lemma_decimal_injective};
use vstd::prelude::*;
use vstd::string::*;

verus! {

/// The name a worker's thread is given: `Worker.Thread-` and the worker's
/// identifier in decimal.
pub open spec fn thread_name(id: nat) -> Seq<char> {
    "Worker.Thread-"@ + decimal(id)
}

/// A worker's thread name is `Worker.Thread-` followed by a numeral that
/// reads back as the worker's identifier.
pub proof fn lemma_thread_name_fields(id: nat)
    ensures
        exists|digits: Seq<char>|
            #![trigger digits_value(digits)]
            is_numeral(digits) && digits_value(digits) == id && thread_name(id) == "Worker.Thread-"@
                + digits,
{
    lemma_decimal_reads_back(id);
    assert(digits_value(decimal(id)) == id);
}

/// Different workers get different thread names.
pub proof fn lemma_thread_names_distinct(a: nat, b: nat)
    ensures
        thread_name(a) == thread_name(b) ==> a == b,
{
    let p = "Worker.Thread-"@;
    if thread_name(a) == thread_name(b) {
        assert(thread_name(a).subrange(p.len() as int, thread_name(a).len() as int) =~= decimal(a));
        assert(thread_name(b).subrange(p.len() as int, thread_name(b).len() as int) =~= decimal(b));
        lemma_decimal_injective(a, b);
    }
}

/// Builds the name of the thread of worker `id`.
pub fn worker_thread_name(id: usize) -> (name: String)
    ensures
        name@ == thread_name(id as nat),
{
    let mut name = String::from_str("Worker.Thread-");
    let digits = decimal_string(id as u128);
    name.append(digits.as_str());
    name
}

/// The outcome a worker's thread reports when it ends: `Ok` on a normal exit,
/// and `Err("Panic!")` when it ends by a panic.
pub fn thread_exit_result(panicked: bool) -> (result: Result<(), String>)
    ensures
        result is Ok <==> !panicked,
        result is Err ==> result->Err_0@ == "Panic!"@,
{
    if panicked {
        Err(String::from_str("Panic!"))
    } else {
        Ok(())
    }
}

/// The status word logged for a thread's outcome.
pub fn thread_status(result: &Result<(), String>) -> (status: &'static str)
    ensures
        result is Ok ==> status@ == "Safe exit"@,
        result is Err ==> status@ == "Panicked"@,
{
    match result {
        Ok(()) => "Safe exit",
        Err(_) => "Panicked",
    }
}

} // verus!
