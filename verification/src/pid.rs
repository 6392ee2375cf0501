//! The PID file rules: which earlier instance to stop, how long to wait
//! for it, and whose PID file may be removed.
use vstd::prelude::*;
use crate::text::{
    decimal, digit_char, digits_value, i64_to_decimal, is_digit, is_white_space, nat_digits,
    parse_u32, parse_u32_spec, trim, trim_end, trim_start, trimmed, unsigned_digits,
};

verus! {

/// Milliseconds a previous instance is given to exit after `SIGTERM`.
pub const TERM_TIMEOUT_MS: u64 = 2000;

/// Milliseconds between checks that it exited.
pub const POLL_INTERVAL_MS: u64 = 50;

/// Milliseconds waited after `SIGKILL`.
pub const KILL_GRACE_MS: u64 = 100;

/// The PID a PID file holds: its contents, trimmed, parsed as a `u32`.
pub open spec fn pid_in(contents: Seq<char>) -> Option<u32> {
    parse_u32_spec(trimmed(contents))
}

/// The PID of an earlier instance to stop: the PID in the file, unless it
/// is our own.
pub fn previous_instance(contents: &str, our_pid: u32) -> (r: Option<u32>)
    ensures
        r == match pid_in(contents@) {
            Some(p) => if p != our_pid {
                Some(p)
            } else {
                None
            },
            None => None,
        },
{
    match parse_u32(trim(contents)) {
        Some(p) => {
            if p != our_pid {
                Some(p)
            } else {
                None
            }
        },
        None => None,
    }
}

/// Whether the PID file holds our PID, so that we may remove it.
pub fn owns_pidfile(contents: &str, our_pid: u32) -> (r: bool)
    ensures
        r == (pid_in(contents@) == Some(our_pid)),
{
    match parse_u32(trim(contents)) {
        Some(p) => p == our_pid,
        None => false,
    }
}

/// What a PID file holds for `pid`: its decimal digits.
pub fn pidfile_contents(pid: u32) -> (r: String)
    ensures
        r@ == decimal(pid as int),
{
    i64_to_decimal(pid as i64)
}

/// What to do while waiting for an earlier instance to exit.
#[derive(Debug, Clone, Copy, PartialEq, Eq, Structural)]
pub enum ShutdownStep {
    /// It exited: stop waiting.
    Exited,
    /// Still alive: wait `POLL_INTERVAL_MS` and check again.
    Poll,
    /// Still alive after `TERM_TIMEOUT_MS`: send `SIGKILL`, wait
    /// `KILL_GRACE_MS` and stop waiting.
    Kill,
}

/// The next step of the wait for an earlier instance.
pub fn shutdown_step(alive: bool, deadline_passed: bool) -> (r: ShutdownStep)
    ensures
        r == if !alive {
            ShutdownStep::Exited
        } else if deadline_passed {
            ShutdownStep::Kill
        } else {
            ShutdownStep::Poll
        },
{
    if !alive {
        ShutdownStep::Exited
    } else if deadline_passed {
        ShutdownStep::Kill
    } else {
        ShutdownStep::Poll
    }
}

proof fn lemma_digit_char(d: nat)
    requires
        d < 10,
    ensures
        digit_char(d) as int == '0' as int + d,
        is_digit(digit_char(d)),
{
}

proof fn lemma_digits_of_nat(n: nat)
    ensures
        nat_digits(n).len() > 0,
        forall|i: int| 0 <= i < nat_digits(n).len() ==> is_digit(#[trigger] nat_digits(n)[i]),
        digits_value(nat_digits(n)) == n,
    decreases n,
{
    lemma_digit_char(n % 10);
    if n >= 10 {
        lemma_digits_of_nat(n / 10);
        let d = nat_digits(n);
        assert(d.drop_last() =~= nat_digits(n / 10));
        assert(d.last() == digit_char(n % 10));
        assert(((d.last() as nat) - ('0' as nat)) as nat == n % 10);
        assert(digits_value(d) == digits_value(nat_digits(n / 10)) * 10 + n % 10);
        assert(n == (n / 10) * 10 + n % 10);
    } else {
        lemma_digit_char(n);
        let d = nat_digits(n);
        assert(d.drop_last() =~= Seq::<char>::empty());
        assert(d.last() == digit_char(n));
        assert(digits_value(d) == digits_value(d.drop_last()) * 10 + ((d.last() as nat) - ('0' as nat)) as nat);
    }
}

/// Reading back a PID file we wrote gives our PID: the check before
/// removal recognises the file as ours.
pub proof fn law_pidfile_roundtrip(pid: u32)
    ensures
        pid_in(decimal(pid as int)) == Some(pid),
{
    let d = nat_digits(pid as nat);
    lemma_digits_of_nat(pid as nat);
    assert(decimal(pid as int) == d);
    assert(!is_white_space(d[0]));
    assert(trim_start(d) == d);
    assert(!is_white_space(d.last()));
    assert(trim_end(d) == d);
    assert(unsigned_digits(d) == d);
}

} // verus!
