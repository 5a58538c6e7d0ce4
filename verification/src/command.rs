//! Captured results of external commands, and the two contracts built on
//! them: a command must succeed, and a status-style command must succeed and
//! stay silent. No command is ever retried: one failure aborts the run.

use vstd::prelude::*;
use crate::ReleaseError;

verus! {

/// What an external command left behind: its exit success flag and captured
/// output streams. Created per invocation and consumed at once.
pub struct CommandResult {
    pub success: bool,
    pub stdout: Vec<u8>,
    pub stderr: Vec<u8>,
}

/// Whitespace for diagnostic trimming.
pub open spec fn is_trim_ws(b: u8) -> bool {
    b == 0x20 || b == 0x09 || b == 0x0a || b == 0x0d
}

pub open spec fn trim_front(s: Seq<u8>) -> Seq<u8>
    decreases s.len(),
{
    if s.len() > 0 && is_trim_ws(s[0]) {
        trim_front(s.drop_first())
    } else {
        s
    }
}

pub open spec fn trim_back(s: Seq<u8>) -> Seq<u8>
    decreases s.len(),
{
    if s.len() > 0 && is_trim_ws(s.last()) {
        trim_back(s.drop_last())
    } else {
        s
    }
}

/// The text without leading and trailing whitespace.
pub open spec fn spec_trim(s: Seq<u8>) -> Seq<u8> {
    trim_back(trim_front(s))
}

proof fn lemma_trim_front_at(s: Seq<u8>, a: int)
    requires
        0 <= a <= s.len(),
        forall|j: int| 0 <= j < a ==> is_trim_ws(#[trigger] s[j]),
        a < s.len() ==> !is_trim_ws(s[a]),
    ensures
        trim_front(s) == s.skip(a),
    decreases a,
{
    if a == 0 {
        assert(s.skip(0) =~= s);
    } else {
        assert(is_trim_ws(s[0]));
        let t = s.drop_first();
        assert forall|j: int| 0 <= j < a - 1 implies is_trim_ws(#[trigger] t[j]) by {
            assert(t[j] == s[j + 1]);
        }
        lemma_trim_front_at(t, a - 1);
        assert(t.skip(a - 1) =~= s.skip(a));
    }
}

proof fn lemma_trim_back_at(s: Seq<u8>, b: int)
    requires
        0 <= b <= s.len(),
        forall|j: int| b <= j < s.len() ==> is_trim_ws(#[trigger] s[j]),
        b > 0 ==> !is_trim_ws(s[b - 1]),
    ensures
        trim_back(s) == s.take(b),
    decreases s.len(),
{
    if b == s.len() {
        if s.len() > 0 {
            assert(!is_trim_ws(s.last()));
        }
        assert(s.take(b) =~= s);
    } else {
        assert(is_trim_ws(s.last()));
        let t = s.drop_last();
        lemma_trim_back_at(t, b);
        assert(t.take(b) =~= s.take(b));
    }
}

/// Removes leading and trailing whitespace, as diagnostics are reported.
pub fn trim_bytes(s: &[u8]) -> (r: Vec<u8>)
    ensures
        r@ == spec_trim(s@),
{
    let mut a: usize = 0;
    while a < s.len() && (s[a] == 0x20 || s[a] == 0x09 || s[a] == 0x0a || s[a] == 0x0d)
        invariant
            a <= s@.len(),
            forall|j: int| 0 <= j < a ==> is_trim_ws(#[trigger] s@[j]),
        decreases s@.len() - a,
    {
        a += 1;
    }
    proof {
        lemma_trim_front_at(s@, a as int);
    }
    if a == s.len() {
        let r: Vec<u8> = Vec::new();
        proof {
            assert(trim_front(s@).len() == 0);
            assert(r@ =~= spec_trim(s@));
        }
        return r;
    }
    let ghost t = s@.skip(a as int);
    let mut b: usize = s.len();
    while b > a + 1 && (s[b - 1] == 0x20 || s[b - 1] == 0x09 || s[b - 1] == 0x0a || s[b - 1]
        == 0x0d)
        invariant
            a < b <= s@.len(),
            forall|j: int| b <= j < s@.len() ==> is_trim_ws(#[trigger] s@[j]),
        decreases b,
    {
        b -= 1;
    }
    proof {
        assert forall|j: int| (b - a) <= j < t.len() implies is_trim_ws(#[trigger] t[j]) by {
            assert(t[j] == s@[a + j]);
        }
        assert(t[b - a - 1] == s@[b - 1 as int]);
        if b == a + 1 {
            assert(!is_trim_ws(t[0]));
        }
        lemma_trim_back_at(t, b - a as int);
    }
    let r = vstd::slice::slice_to_vec(vstd::slice::slice_subrange(s, a, b));
    proof {
        assert(s@.subrange(a as int, b as int) =~= t.take(b - a as int));
    }
    r
}

/// The command must have succeeded; otherwise the run fails with
/// `CommandFailed` carrying the trimmed standard error.
pub fn check_success(r: CommandResult) -> (res: Result<CommandResult, ReleaseError>)
    ensures
        match res {
            Ok(o) => r.success && o.success == r.success && o.stdout@ == r.stdout@ && o.stderr@
                == r.stderr@,
            Err(e) => !r.success && (e matches ReleaseError::CommandFailed { detail } && detail@
                == spec_trim(r.stderr@)),
        },
{
    if r.success {
        Ok(r)
    } else {
        Err(ReleaseError::CommandFailed { detail: trim_bytes(r.stderr.as_slice()) })
    }
}

/// The command must have succeeded and printed nothing; failure carries the
/// trimmed standard error, unexpected output the trimmed standard output.
pub fn check_empty_stdout(r: CommandResult) -> (res: Result<(), ReleaseError>)
    ensures
        match res {
            Ok(_) => r.success && r.stdout@.len() == 0,
            Err(e) => {
                ||| (!r.success && (e matches ReleaseError::CommandFailed { detail } && detail@
                    == spec_trim(r.stderr@)))
                ||| (r.success && r.stdout@.len() > 0 && (e
                    matches ReleaseError::UnexpectedOutput { detail } && detail@ == spec_trim(
                    r.stdout@,
                )))
            },
        },
{
    let checked = check_success(r)?;
    if checked.stdout.len() == 0 {
        Ok(())
    } else {
        Err(ReleaseError::UnexpectedOutput { detail: trim_bytes(checked.stdout.as_slice()) })
    }
}

/// The repository status must be silent: any reported line means local
/// changes, and the run aborts with `DirtyRepository`.
pub fn ensure_clean(r: CommandResult) -> (res: Result<(), ReleaseError>)
    ensures
        match res {
            Ok(_) => r.success && r.stdout@.len() == 0,
            Err(e) => {
                ||| (!r.success && (e matches ReleaseError::CommandFailed { detail } && detail@
                    == spec_trim(r.stderr@)))
                ||| (r.success && r.stdout@.len() > 0 && (e
                    matches ReleaseError::DirtyRepository { detail } && detail@ == spec_trim(
                    r.stdout@,
                )))
            },
        },
{
    match check_empty_stdout(r) {
        Ok(_) => Ok(()),
        Err(er) => match er {
            ReleaseError::UnexpectedOutput { detail } => Err(
                ReleaseError::DirtyRepository { detail },
            ),
            other => Err(other),
        },
    }
}

/// The upstream revision listing must be silent: any reported commit exists
/// upstream only, and the run aborts with `BehindUpstream`.
pub fn ensure_up_to_date(r: CommandResult) -> (res: Result<(), ReleaseError>)
    ensures
        match res {
            Ok(_) => r.success && r.stdout@.len() == 0,
            Err(e) => {
                ||| (!r.success && (e matches ReleaseError::CommandFailed { detail } && detail@
                    == spec_trim(r.stderr@)))
                ||| (r.success && r.stdout@.len() > 0 && (e
                    matches ReleaseError::BehindUpstream { detail } && detail@ == spec_trim(
                    r.stdout@,
                )))
            },
        },
{
    match check_empty_stdout(r) {
        Ok(_) => Ok(()),
        Err(er) => match er {
            ReleaseError::UnexpectedOutput { detail } => Err(
                ReleaseError::BehindUpstream { detail },
            ),
            other => Err(other),
        },
    }
}

} // verus!
