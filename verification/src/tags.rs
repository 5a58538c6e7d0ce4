//! The tag resolver: recognising release tags in the repository's tag
//! listing and selecting the latest version that satisfies a constraint.
//!
//! A release tag is `v` followed by a plain `MAJOR.MINOR.PATCH`; every other
//! tag name is ignored, which is not an error.

use vstd::prelude::*;
use crate::constraint::{constraint_matches, Constraint};
use crate::lines::{line_views, split_lines};
use crate::order::{cmp_version, Cmp};
use crate::version::{spec_parse, PreId, Version, VersionModel};
use crate::ReleaseError;

verus! {

/// The release tag a line names, if any: a `v` prefix and a version without
/// a pre-release part.
pub open spec fn spec_parse_tag(line: Seq<u8>) -> Option<VersionModel> {
    if line.len() >= 1 && line[0] == 0x76 {
        match spec_parse(line.drop_first()) {
            Some(v) => if v.pre.len() == 0 {
                Some(v)
            } else {
                None
            },
            None => None,
        }
    } else {
        None
    }
}

/// The versions of the release tags among the lines, in line order.
pub open spec fn tags_of_lines(ls: Seq<Seq<u8>>) -> Seq<VersionModel>
    decreases ls.len(),
{
    if ls.len() == 0 {
        Seq::empty()
    } else {
        match spec_parse_tag(ls[0]) {
            Some(v) => seq![v] + tags_of_lines(ls.drop_first()),
            None => tags_of_lines(ls.drop_first()),
        }
    }
}

/// The versions named by the release tags in a newline-separated listing.
pub open spec fn spec_collect_tags(text: Seq<u8>) -> Seq<VersionModel> {
    tags_of_lines(split_lines(text))
}

pub open spec fn version_views(vs: Seq<Version>) -> Seq<VersionModel> {
    vs.map_values(|v: Version| v@)
}

/// Reads one line as a release tag.
pub fn parse_tag(line: &[u8]) -> (r: Option<Version>)
    ensures
        match r {
            Some(v) => spec_parse_tag(line@) == Some(v@),
            None => spec_parse_tag(line@) is None,
        },
{
    if line.len() == 0 || line[0] != 0x76 {
        return None;
    }
    let rest = vstd::slice::slice_subrange(line, 1, line.len());
    proof {
        assert(rest@ =~= line@.drop_first());
    }
    match crate::version::parse_version(rest) {
        Ok(v) => {
            if v.pre.len() == 0 {
                Some(v)
            } else {
                assert(v@.pre.len() != 0);
                None
            }
        },
        Err(_) => None,
    }
}

fn collect_from(lines: &Vec<Vec<u8>>, i: usize) -> (r: Vec<Version>)
    requires
        i <= lines@.len(),
    ensures
        version_views(r@) == tags_of_lines(line_views(lines@).skip(i as int)),
    decreases lines@.len() - i,
{
    let ghost tail = line_views(lines@).skip(i as int);
    if i == lines.len() {
        let r: Vec<Version> = Vec::new();
        proof {
            assert(version_views(r@) =~= tags_of_lines(tail));
        }
        return r;
    }
    proof {
        assert(tail[0] == line_views(lines@)[i as int]);
        assert(tail.drop_first() =~= line_views(lines@).skip(i + 1));
    }
    let rest = collect_from(lines, i + 1);
    match parse_tag(lines[i].as_slice()) {
        Some(v) => {
            let mut r = rest;
            r.insert(0, v);
            proof {
                assert(version_views(r@) =~= seq![spec_parse_tag(tail[0]).unwrap()]
                    + tags_of_lines(tail.drop_first()));
            }
            r
        },
        None => rest,
    }
}

/// The release tags named in a tag listing, as versions, in line order.
pub fn collect_tags(text: &[u8]) -> (r: Vec<Version>)
    ensures
        version_views(r@) == spec_collect_tags(text@),
{
    let lines = crate::lines::split_lines_exec(text);
    proof {
        assert(line_views(lines@).skip(0) =~= line_views(lines@));
    }
    collect_from(&lines, 0)
}

/// Copies a version.
pub fn clone_version(v: &Version) -> (r: Version)
    ensures
        r@ == v@,
{
    let mut pre: Vec<PreId> = Vec::new();
    let mut i: usize = 0;
    while i < v.pre.len()
        invariant
            i <= v.pre@.len(),
            crate::version::pre_views(pre@) == crate::version::pre_views(v.pre@).take(i as int),
        decreases v.pre@.len() - i,
    {
        let id = match &v.pre[i] {
            PreId::Num(n) => PreId::Num(*n),
            PreId::Alpha(t) => PreId::Alpha(vstd::slice::slice_to_vec(t.as_slice())),
        };
        assert(id@ == v.pre@[i as int]@);
        let ghost oldp = pre@;
        let ghost idv = id@;
        pre.push(id);
        proof {
            assert(crate::version::pre_views(pre@) =~= crate::version::pre_views(oldp).push(idv));
            assert(crate::version::pre_views(oldp).push(idv) =~= crate::version::pre_views(
                v.pre@,
            ).take(i + 1));
        }
        i += 1;
    }
    let r = Version { major: v.major, minor: v.minor, patch: v.patch, pre };
    proof {
        assert(crate::version::pre_views(v.pre@).take(i as int) =~= crate::version::pre_views(
            v.pre@,
        ));
    }
    r
}

/// Whether some tag version equals `v`.
pub fn contains_version(tags: &Vec<Version>, v: &Version) -> (r: bool)
    ensures
        r == version_views(tags@).contains(v@),
{
    let mut i: usize = 0;
    while i < tags.len()
        invariant
            i <= tags@.len(),
            forall|j: int| 0 <= j < i ==> #[trigger] version_views(tags@)[j] != v@,
        decreases tags@.len() - i,
    {
        if crate::version::version_eq(&tags[i], v) {
            assert(version_views(tags@)[i as int] == v@);
            return true;
        }
        i += 1;
    }
    proof {
        if version_views(tags@).contains(v@) {
            let j = choose|j: int|
                0 <= j < version_views(tags@).len() && version_views(tags@)[j] == v@;
            assert(version_views(tags@)[j] != v@);
        }
    }
    false
}

/// Selects the greatest tag version satisfying the constraint; fails with
/// `NoMatchingVersion`, before any side effect of the workflow, exactly when
/// none does.
pub fn resolve_latest(tags: &Vec<Version>, c: &Constraint) -> (r: Result<Version, ReleaseError>)
    ensures
        match r {
            Ok(v) => {
                &&& version_views(tags@).contains(v@)
                &&& constraint_matches(*c, v@)
                &&& forall|j: int|
                    0 <= j < tags@.len() && constraint_matches(*c, #[trigger] version_views(
                        tags@,
                    )[j]) ==> cmp_version(version_views(tags@)[j], v@) != Cmp::Gt
            },
            Err(e) => {
                &&& e is NoMatchingVersion
                &&& forall|j: int|
                    0 <= j < tags@.len() ==> !constraint_matches(*c, #[trigger] version_views(
                        tags@,
                    )[j])
            },
        },
{
    let ghost views = version_views(tags@);
    let mut best: Option<usize> = None;
    let mut i: usize = 0;
    while i < tags.len()
        invariant
            i <= tags@.len(),
            views == version_views(tags@),
            match best {
                Some(b) => {
                    &&& b < i
                    &&& constraint_matches(*c, views[b as int])
                    &&& forall|j: int|
                        0 <= j < i && constraint_matches(*c, #[trigger] views[j]) ==> cmp_version(
                            views[j],
                            views[b as int],
                        ) != Cmp::Gt
                },
                None => forall|j: int| 0 <= j < i ==> !constraint_matches(*c, #[trigger] views[j]),
            },
        decreases tags@.len() - i,
    {
        if crate::constraint::matches_constraint(c, &tags[i]) {
            match best {
                None => {
                    best = Some(i);
                    proof {
                        crate::order::lemma_cmp_version_eq(views[i as int], views[i as int]);
                    }
                },
                Some(b) => {
                    let cm = crate::order::compare_versions(&tags[i], &tags[b]);
                    if matches!(cm, Cmp::Gt) {
                        proof {
                            crate::order::lemma_cmp_version_flip(views[i as int], views[b as int]);
                            assert forall|j: int|
                                0 <= j < i + 1 && constraint_matches(
                                    *c,
                                    #[trigger] views[j],
                                ) implies cmp_version(views[j], views[i as int]) != Cmp::Gt by {
                                if j < i {
                                    crate::order::lemma_cmp_version_eq(views[j], views[b as int]);
                                    if cmp_version(views[j], views[b as int]) == Cmp::Lt {
                                        crate::order::lemma_cmp_version_trans(
                                            views[j],
                                            views[b as int],
                                            views[i as int],
                                        );
                                    }
                                    crate::order::lemma_cmp_version_flip(
                                        views[j],
                                        views[i as int],
                                    );
                                } else {
                                    crate::order::lemma_cmp_version_eq(
                                        views[i as int],
                                        views[i as int],
                                    );
                                }
                            }
                        }
                        best = Some(i);
                    } else {
                        proof {
                            crate::order::lemma_cmp_version_flip(views[i as int], views[b as int]);
                            crate::order::lemma_cmp_version_eq(views[i as int], views[b as int]);
                        }
                    }
                },
            }
        }
        i += 1;
    }
    match best {
        Some(b) => {
            let v = clone_version(&tags[b]);
            assert(views[b as int] == v@);
            Ok(v)
        },
        None => Err(ReleaseError::NoMatchingVersion),
    }
}

} // verus!
