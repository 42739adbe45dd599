//! What follows from the results of reading from and writing to the
//! pseudoterminal.
use vstd::prelude::*;

verus! {

/// What a reader does after a system call.
#[derive(Debug, Clone, Copy, PartialEq, Eq, Structural)]
pub enum ReadStep {
    /// Hand on this many bytes.
    Deliver(usize),
    /// Read the bytes that are there.
    Read,
    /// Wait for bytes again.
    Poll,
    /// The shell has exited.
    Stop,
}

/// What a reader does after waiting for bytes: `result` says on how many
/// descriptors there are some, and is negative for a failure, which a signal
/// may have caused.
pub fn after_poll(result: i32, interrupted: bool) -> (r: ReadStep)
    ensures
        r == if result > 0 {
            ReadStep::Read
        } else if result == 0 || interrupted {
            ReadStep::Poll
        } else {
            ReadStep::Stop
        },
{
    if result > 0 {
        ReadStep::Read
    } else if result == 0 || interrupted {
        ReadStep::Poll
    } else {
        ReadStep::Stop
    }
}

/// What a reader does after reading into a buffer of `capacity` bytes:
/// `result` is the number of bytes, zero at the end, and negative for a
/// failure, which may only mean that there was nothing to read.
pub fn after_read(result: isize, capacity: usize, would_block: bool) -> (r: ReadStep)
    requires
        result <= capacity,
    ensures
        r == if result > 0 {
            ReadStep::Deliver(result as usize)
        } else if result < 0 && would_block {
            ReadStep::Poll
        } else {
            ReadStep::Stop
        },
        r matches ReadStep::Deliver(n) ==> 0 < n <= capacity,
{
    if result > 0 {
        ReadStep::Deliver(result as usize)
    } else if result < 0 && would_block {
        ReadStep::Poll
    } else {
        ReadStep::Stop
    }
}

/// What a writer does after a system call: go on from this many written bytes,
/// or stop. It stops when everything is written or the call failed for any
/// reason but a signal.
pub fn after_write(written: usize, total: usize, result: isize, interrupted: bool) -> (r: Option<
    usize,
>)
    requires
        written <= total,
        result <= total - written,
    ensures
        r == if result > 0 && written + result < total {
            Some((written + result) as usize)
        } else if result < 0 && interrupted && written < total {
            Some(written)
        } else {
            None
        },
        r matches Some(n) ==> written <= n < total,
{
    if result > 0 {
        let now: usize = written + result as usize;
        if now < total {
            Some(now)
        } else {
            None
        }
    } else if result < 0 && interrupted && written < total {
        Some(written)
    } else {
        None
    }
}

/// The program and arguments to run: a command given on the command line runs
/// in the shell, and without one the shell runs by itself.
pub fn shell_argv(shell: &str, command: Option<&str>) -> (r: Vec<String>)
    ensures
        crate::grid::view::strings(r@) == match command {
            Some(c) => seq![shell@, "-c"@, c@],
            None => seq![shell@],
        },
{
    let mut v: Vec<String> = Vec::new();
    v.push(shell.to_owned());
    if let Some(c) = command {
        v.push("-c".to_owned());
        v.push(c.to_owned());
    }
    proof {
        assert(crate::grid::view::strings(v@) =~= match command {
            Some(c) => seq![shell@, "-c"@, c@],
            None => seq![shell@],
        });
    }
    v
}

} // verus!
