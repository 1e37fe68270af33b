//! Terminal window dimensions handed to the PTY layer.

use vstd::prelude::*;
use vstd::string::*;

verus! {

/// Terminal window dimensions in character cells (not pixels), and the shell
/// to start (`None`: `$SHELL`, else `/bin/sh`).
///
/// The kernel answers `TIOCGWINSZ` from these, which is how full-screen
/// programs know how wide to draw.
#[derive(Debug, Clone)]
pub struct TermSize {
    pub rows: u16,
    pub cols: u16,
    pub shell: Option<String>,
}

impl TermSize {
    /// Typical 80×24 terminal — a safe default for testing.
    pub fn default_vt100() -> (t: Self)
        ensures
            t.rows == 24,
            t.cols == 80,
            t.shell is None,
    {
        Self { rows: 24, cols: 80, shell: None }
    }
}

/// The shell a PTY starts: the one the size names, else the one the
/// environment names (`$SHELL`), else `/bin/sh`, which POSIX guarantees.
pub fn shell_to_run(configured: Option<String>, env_shell: Option<String>) -> (s: String)
    ensures
        s@ == match configured {
            Some(c) => c@,
            None => match env_shell {
                Some(e) => e@,
                None => "/bin/sh"@,
            },
        },
{
    match configured {
        Some(c) => c,
        None => match env_shell {
            Some(e) => e,
            None => String::from_str("/bin/sh"),
        },
    }
}

/// The descriptors among the first `n` of `open` that a freshly forked
/// child closes before it runs the shell: every one above the standard
/// streams (0, 1, 2), in their order. The two ends of the PTY are among them:
/// once the slave end is duplicated onto 0, 1 and 2, the child needs neither
/// raw descriptor.
pub open spec fn closable(open: Seq<i32>, n: int) -> Seq<i32>
    decreases n,
{
    if n <= 0 {
        Seq::empty()
    } else {
        let fd = open[n - 1];
        let rest = closable(open, n - 1);
        if fd > 2 {
            rest.push(fd)
        } else {
            rest
        }
    }
}

/// The descriptors among `open` to close in a freshly forked child (see
/// `closable`).
pub fn fds_to_close(open: &[i32]) -> (v: Vec<i32>)
    ensures
        v@ == closable(open@, open@.len() as int),
{
    let mut v: Vec<i32> = Vec::new();
    let mut k: usize = 0;
    while k < open.len()
        invariant
            k <= open@.len(),
            v@ == closable(open@, k as int),
        decreases open@.len() - k,
    {
        let fd = open[k];
        if fd > 2 {
            v.push(fd);
        }
        k = k + 1;
    }
    v
}

/// Law: the child closes exactly the listed descriptors above 2 (the PTY's
/// master and slave included), and keeps only the standard streams.
pub proof fn lemma_closable_exact(open: Seq<i32>, n: int, fd: i32)
    requires
        0 <= n <= open.len(),
    ensures
        closable(open, n).contains(fd) <==> (fd > 2 && open.take(n).contains(fd)),
    decreases n,
{
    broadcast use vstd::seq_lib::lemma_seq_contains_after_push;
    if n > 0 {
        lemma_closable_exact(open, n - 1, fd);
        assert(open.take(n) =~= open.take(n - 1).push(open[n - 1]));
    } else {
        assert(open.take(0) =~= Seq::<i32>::empty());
    }
}

/// Where writing a buffer to the PTY stands after one `write` call.
#[derive(Debug, Clone, Copy, PartialEq, Eq, Structural)]
pub enum WriteStep {
    /// The call failed; the error is reported and nothing more is written.
    Fail,
    /// Bytes from this offset on are still to be written.
    Continue(usize),
    /// Every byte has been written.
    Done,
}

/// The step after a `write` of the bytes from offset `written` of a buffer
/// of `len` bytes returned `n`: `Fail` for a negative result, `Done` once the
/// bytes written reach the end, otherwise the offset moved on by `n`.
pub open spec fn write_step(written: int, len: int, n: int) -> WriteStep {
    if n < 0 {
        WriteStep::Fail
    } else if written + n >= len {
        WriteStep::Done
    } else {
        WriteStep::Continue((written + n) as usize)
    }
}

/// Decides what follows one `write` call on the PTY (see `write_step`). The
/// write loop starts at offset 0 and offers, at each step, the bytes from the
/// current offset on.
pub fn write_progress(written: usize, len: usize, n: isize) -> (r: WriteStep)
    ensures
        r == write_step(written as int, len as int, n as int),
{
    if n < 0 {
        WriteStep::Fail
    } else if written >= len || n as usize >= len - written {
        WriteStep::Done
    } else {
        WriteStep::Continue(written + n as usize)
    }
}

/// Where a write loop over `len` bytes stands after the `write` calls that
/// returned `ns`, in order.
pub open spec fn writes_run(len: int, ns: Seq<int>) -> WriteStep
    decreases ns.len(),
{
    if ns.len() == 0 {
        if len <= 0 {
            WriteStep::Done
        } else {
            WriteStep::Continue(0)
        }
    } else {
        match writes_run(len, ns.drop_last()) {
            WriteStep::Continue(w) => write_step(w as int, len, ns.last()),
            other => other,
        }
    }
}

/// The sum of `ns`.
pub open spec fn total(ns: Seq<int>) -> int
    decreases ns.len(),
{
    if ns.len() == 0 {
        0
    } else {
        total(ns.drop_last()) + ns.last()
    }
}

/// Law: each write continues where the previous one stopped, so after
/// successful writes whose counts sum to less than the buffer's length the
/// loop resumes right after the bytes written so far, and once they reach the
/// length every byte has been written exactly once, in order.
pub proof fn lemma_writes_cover(len: usize, ns: Seq<int>)
    requires
        len > 0,
        forall|i: int| 0 <= i < ns.len() ==> ns[i] >= 0,
        ns.len() > 0 ==> total(ns.drop_last()) < len,
    ensures
        writes_run(len as int, ns) == if total(ns) >= len {
            WriteStep::Done
        } else {
            WriteStep::Continue(total(ns) as usize)
        },
    decreases ns.len(),
{
    if ns.len() > 0 {
        let prev = ns.drop_last();
        if prev.len() > 0 {
            lemma_total_nonneg(prev.drop_last());
            assert(total(prev.drop_last()) <= total(prev));
        }
        lemma_writes_cover(len, prev);
        lemma_total_nonneg(prev);
    }
}

/// Lemma: a sum of non-negative counts is non-negative.
proof fn lemma_total_nonneg(ns: Seq<int>)
    requires
        forall|i: int| 0 <= i < ns.len() ==> ns[i] >= 0,
    ensures
        total(ns) >= 0,
    decreases ns.len(),
{
    if ns.len() > 0 {
        lemma_total_nonneg(ns.drop_last());
    }
}

} // verus!
