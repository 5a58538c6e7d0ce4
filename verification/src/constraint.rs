//! Release policies and base-version constraints. A base constraint pins
//! resolution to one major line (`X`) or one major.minor line (`X.Y`); the
//! latter is only legal under the patch policy, and the combination is
//! rejected before any side effect.

use vstd::prelude::*;
use crate::version::{find, parse_num, VersionModel};
use crate::ReleaseError;

verus! {

/// Which component the release increments. The default is a minor release.
#[derive(Clone, Copy, PartialEq, Eq, Structural, Debug)]
pub enum Policy {
    Major,
    Minor,
    Patch,
}

impl Default for Policy {
    /// A release is a new minor version unless another policy is chosen.
    fn default() -> (r: Policy)
        ensures
            r == Policy::Minor,
    {
        Policy::Minor
    }
}

/// Restriction on which release tags take part in version resolution.
#[derive(Clone, Copy, PartialEq, Eq, Structural, Debug)]
pub enum Constraint {
    Any,
    MajorLine(u64),
    MinorLine(u64, u64),
}

/// Whether `v` satisfies the constraint.
pub open spec fn constraint_matches(c: Constraint, v: VersionModel) -> bool {
    match c {
        Constraint::Any => true,
        Constraint::MajorLine(x) => v.major == x,
        Constraint::MinorLine(x, y) => v.major == x && v.minor == y,
    }
}

pub fn matches_constraint(c: &Constraint, v: &crate::version::Version) -> (r: bool)
    ensures
        r == constraint_matches(*c, v@),
{
    match c {
        Constraint::Any => true,
        Constraint::MajorLine(x) => v.major == *x,
        Constraint::MinorLine(x, y) => v.major == *x && v.minor == *y,
    }
}

/// Base text grammar: a canonical number, or two joined by one dot.
pub open spec fn spec_parse_base(s: Seq<u8>) -> Option<Constraint> {
    let k = find(s, 0x2e);
    if !(0 <= k < s.len()) {
        match parse_num(s) {
            Some(x) => Some(Constraint::MajorLine(x)),
            None => None,
        }
    } else {
        match (parse_num(s.take(k)), parse_num(s.skip(k + 1))) {
            (Some(x), Some(y)) => Some(Constraint::MinorLine(x, y)),
            _ => None,
        }
    }
}

/// Parses base-constraint text (`X` or `X.Y`).
pub fn parse_base(s: &[u8]) -> (r: Result<Constraint, ReleaseError>)
    ensures
        match r {
            Ok(c) => spec_parse_base(s@) == Some(c),
            Err(e) => spec_parse_base(s@) is None && e is FormatError,
        },
{
    let k = crate::version::find_byte(s, 0, 0x2e);
    proof {
        assert(s@.skip(0) =~= s@);
    }
    if k == s.len() {
        proof {
            assert(s@.subrange(0, s@.len() as int) =~= s@);
        }
        match crate::version::scan_u64(s, 0, s.len()) {
            Some(x) => Ok(Constraint::MajorLine(x)),
            None => Err(ReleaseError::FormatError),
        }
    } else {
        proof {
            assert(s@.subrange(0, k as int) =~= s@.take(k as int));
            assert(s@.subrange(k + 1, s@.len() as int) =~= s@.skip(k + 1));
        }
        let x = match crate::version::scan_u64(s, 0, k) {
            Some(x) => x,
            None => {
                return Err(ReleaseError::FormatError);
            },
        };
        let y = match crate::version::scan_u64(s, k + 1, s.len()) {
            Some(y) => y,
            None => {
                return Err(ReleaseError::FormatError);
            },
        };
        Ok(Constraint::MinorLine(x, y))
    }
}

/// The constraint a run works under, from the optional base text and the
/// policy. A minor-line constraint demands the patch policy; the illegal
/// combination, like malformed text, is rejected here, before any state of
/// the workflow runs.
pub open spec fn spec_build_constraint(policy: Policy, base: Option<Seq<u8>>) -> Option<
    Constraint,
> {
    match base {
        None => Some(Constraint::Any),
        Some(b) => match spec_parse_base(b) {
            None => None,
            Some(c) => if c is MinorLine && policy != Policy::Patch {
                None
            } else {
                Some(c)
            },
        },
    }
}

pub fn build_constraint(policy: Policy, base: &Option<Vec<u8>>) -> (r: Result<
    Constraint,
    ReleaseError,
>)
    ensures
        match r {
            Ok(c) => spec_build_constraint(policy, option_view(*base)) == Some(c),
            Err(e) => spec_build_constraint(policy, option_view(*base)) is None
                && e is FormatError,
        },
{
    match base {
        None => Ok(Constraint::Any),
        Some(b) => {
            let c = parse_base(b.as_slice())?;
            match c {
                Constraint::MinorLine(_, _) => {
                    if matches!(policy, Policy::Patch) {
                        Ok(c)
                    } else {
                        Err(ReleaseError::FormatError)
                    }
                },
                _ => Ok(c),
            }
        },
    }
}

/// The view of optional byte text.
pub open spec fn option_view(o: Option<Vec<u8>>) -> Option<Seq<u8>> {
    match o {
        None => None,
        Some(v) => Some(v@),
    }
}

} // verus!
