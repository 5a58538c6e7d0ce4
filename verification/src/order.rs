//! The total order on semantic versions: compare major, minor, patch
//! numerically; a version without pre-release identifiers is greater than an
//! otherwise-equal version with them; identifier sequences compare
//! element-wise, numeric identifiers numerically and below alphanumeric ones,
//! alphanumeric identifiers bytewise, and a strict prefix is smaller.

use vstd::prelude::*;
use crate::version::{PreId, PreIdModel, Version, VersionModel};

verus! {

/// Outcome of a comparison.
#[derive(Clone, Copy, PartialEq, Eq, Structural, Debug)]
pub enum Cmp {
    Lt,
    Eq,
    Gt,
}

pub open spec fn cmp_int(a: int, b: int) -> Cmp {
    if a < b {
        Cmp::Lt
    } else if a == b {
        Cmp::Eq
    } else {
        Cmp::Gt
    }
}

pub open spec fn cmp_bytes(a: Seq<u8>, b: Seq<u8>) -> Cmp
    decreases a.len(),
{
    if a.len() == 0 && b.len() == 0 {
        Cmp::Eq
    } else if a.len() == 0 {
        Cmp::Lt
    } else if b.len() == 0 {
        Cmp::Gt
    } else if a[0] != b[0] {
        cmp_int(a[0] as int, b[0] as int)
    } else {
        cmp_bytes(a.drop_first(), b.drop_first())
    }
}

pub open spec fn cmp_id(a: PreIdModel, b: PreIdModel) -> Cmp {
    match (a, b) {
        (PreIdModel::Num(x), PreIdModel::Num(y)) => cmp_int(x as int, y as int),
        (PreIdModel::Num(_), PreIdModel::Alpha(_)) => Cmp::Lt,
        (PreIdModel::Alpha(_), PreIdModel::Num(_)) => Cmp::Gt,
        (PreIdModel::Alpha(x), PreIdModel::Alpha(y)) => cmp_bytes(x, y),
    }
}

pub open spec fn cmp_ids(a: Seq<PreIdModel>, b: Seq<PreIdModel>) -> Cmp
    decreases a.len(),
{
    if a.len() == 0 && b.len() == 0 {
        Cmp::Eq
    } else if a.len() == 0 {
        Cmp::Lt
    } else if b.len() == 0 {
        Cmp::Gt
    } else if cmp_id(a[0], b[0]) != Cmp::Eq {
        cmp_id(a[0], b[0])
    } else {
        cmp_ids(a.drop_first(), b.drop_first())
    }
}

/// The order on versions described at the top of this module.
pub open spec fn cmp_version(a: VersionModel, b: VersionModel) -> Cmp {
    if a.major != b.major {
        cmp_int(a.major as int, b.major as int)
    } else if a.minor != b.minor {
        cmp_int(a.minor as int, b.minor as int)
    } else if a.patch != b.patch {
        cmp_int(a.patch as int, b.patch as int)
    } else if a.pre.len() == 0 && b.pre.len() == 0 {
        Cmp::Eq
    } else if a.pre.len() == 0 {
        Cmp::Gt
    } else if b.pre.len() == 0 {
        Cmp::Lt
    } else {
        cmp_ids(a.pre, b.pre)
    }
}

pub proof fn lemma_cmp_bytes_eq(a: Seq<u8>, b: Seq<u8>)
    ensures
        cmp_bytes(a, b) == Cmp::Eq <==> a == b,
    decreases a.len(),
{
    if a.len() > 0 && b.len() > 0 && a[0] == b[0] {
        lemma_cmp_bytes_eq(a.drop_first(), b.drop_first());
        if cmp_bytes(a, b) == Cmp::Eq {
            assert forall|j: int| 0 <= j < a.len() implies a[j] == b[j] by {
                if j > 0 {
                    assert(a.drop_first()[j - 1] == b.drop_first()[j - 1]);
                }
            }
            assert(a =~= b);
        } else {
            if a == b {
                assert(a.drop_first() =~= b.drop_first());
            }
        }
    } else {
        if a.len() == 0 && b.len() == 0 {
            assert(a =~= b);
        } else if a == b && a.len() > 0 {
            assert(a[0] == b[0]);
        }
    }
}

pub proof fn lemma_cmp_bytes_flip(a: Seq<u8>, b: Seq<u8>)
    ensures
        cmp_bytes(a, b) == Cmp::Lt <==> cmp_bytes(b, a) == Cmp::Gt,
        cmp_bytes(a, b) == Cmp::Eq <==> cmp_bytes(b, a) == Cmp::Eq,
    decreases a.len(),
{
    if a.len() > 0 && b.len() > 0 && a[0] == b[0] {
        lemma_cmp_bytes_flip(a.drop_first(), b.drop_first());
    }
}

pub proof fn lemma_cmp_bytes_trans(a: Seq<u8>, b: Seq<u8>, c: Seq<u8>)
    requires
        cmp_bytes(a, b) == Cmp::Lt,
        cmp_bytes(b, c) == Cmp::Lt,
    ensures
        cmp_bytes(a, c) == Cmp::Lt,
    decreases a.len(),
{
    if a.len() > 0 && b.len() > 0 && c.len() > 0 && a[0] == b[0] && b[0] == c[0] {
        lemma_cmp_bytes_trans(a.drop_first(), b.drop_first(), c.drop_first());
    }
}

pub proof fn lemma_cmp_id_eq(a: PreIdModel, b: PreIdModel)
    ensures
        cmp_id(a, b) == Cmp::Eq <==> a == b,
{
    match (a, b) {
        (PreIdModel::Alpha(x), PreIdModel::Alpha(y)) => {
            lemma_cmp_bytes_eq(x, y);
        },
        _ => {},
    }
}

pub proof fn lemma_cmp_id_flip(a: PreIdModel, b: PreIdModel)
    ensures
        cmp_id(a, b) == Cmp::Lt <==> cmp_id(b, a) == Cmp::Gt,
        cmp_id(a, b) == Cmp::Eq <==> cmp_id(b, a) == Cmp::Eq,
{
    match (a, b) {
        (PreIdModel::Alpha(x), PreIdModel::Alpha(y)) => {
            lemma_cmp_bytes_flip(x, y);
        },
        _ => {},
    }
}

pub proof fn lemma_cmp_id_trans(a: PreIdModel, b: PreIdModel, c: PreIdModel)
    requires
        cmp_id(a, b) == Cmp::Lt,
        cmp_id(b, c) == Cmp::Lt,
    ensures
        cmp_id(a, c) == Cmp::Lt,
{
    match (a, b, c) {
        (PreIdModel::Alpha(x), PreIdModel::Alpha(y), PreIdModel::Alpha(z)) => {
            lemma_cmp_bytes_trans(x, y, z);
        },
        _ => {},
    }
}

pub proof fn lemma_cmp_ids_eq(a: Seq<PreIdModel>, b: Seq<PreIdModel>)
    ensures
        cmp_ids(a, b) == Cmp::Eq <==> a == b,
    decreases a.len(),
{
    if a.len() > 0 && b.len() > 0 {
        lemma_cmp_id_eq(a[0], b[0]);
        if cmp_id(a[0], b[0]) == Cmp::Eq {
            lemma_cmp_ids_eq(a.drop_first(), b.drop_first());
            if cmp_ids(a, b) == Cmp::Eq {
                assert forall|j: int| 0 <= j < a.len() implies a[j] == b[j] by {
                    if j > 0 {
                        assert(a.drop_first()[j - 1] == b.drop_first()[j - 1]);
                    }
                }
                assert(a =~= b);
            } else {
                if a == b {
                    assert(a.drop_first() =~= b.drop_first());
                }
            }
        } else {
            if a == b {
                assert(a[0] == b[0]);
            }
        }
    } else {
        if a.len() == 0 && b.len() == 0 {
            assert(a =~= b);
        } else if a == b && a.len() > 0 {
            assert(false);
        }
    }
}

pub proof fn lemma_cmp_ids_flip(a: Seq<PreIdModel>, b: Seq<PreIdModel>)
    ensures
        cmp_ids(a, b) == Cmp::Lt <==> cmp_ids(b, a) == Cmp::Gt,
        cmp_ids(a, b) == Cmp::Eq <==> cmp_ids(b, a) == Cmp::Eq,
    decreases a.len(),
{
    if a.len() > 0 && b.len() > 0 {
        lemma_cmp_id_flip(a[0], b[0]);
        lemma_cmp_ids_flip(a.drop_first(), b.drop_first());
    }
}

pub proof fn lemma_cmp_ids_trans(a: Seq<PreIdModel>, b: Seq<PreIdModel>, c: Seq<PreIdModel>)
    requires
        cmp_ids(a, b) == Cmp::Lt,
        cmp_ids(b, c) == Cmp::Lt,
    ensures
        cmp_ids(a, c) == Cmp::Lt,
    decreases a.len(),
{
    if a.len() > 0 && b.len() > 0 && c.len() > 0 {
        lemma_cmp_id_eq(a[0], b[0]);
        lemma_cmp_id_eq(b[0], c[0]);
        lemma_cmp_id_eq(a[0], c[0]);
        if cmp_id(a[0], b[0]) == Cmp::Eq && cmp_id(b[0], c[0]) == Cmp::Eq {
            lemma_cmp_ids_trans(a.drop_first(), b.drop_first(), c.drop_first());
        } else if cmp_id(a[0], b[0]) == Cmp::Eq {
        } else if cmp_id(b[0], c[0]) == Cmp::Eq {
        } else {
            lemma_cmp_id_trans(a[0], b[0], c[0]);
        }
    }
}

/// Comparing equal versions yields `Eq`, and `Eq` only for equal versions.
pub proof fn lemma_cmp_version_eq(a: VersionModel, b: VersionModel)
    ensures
        cmp_version(a, b) == Cmp::Eq <==> a == b,
{
    lemma_cmp_ids_eq(a.pre, b.pre);
}

/// Exchanging the arguments exchanges `Lt` and `Gt`.
pub proof fn lemma_cmp_version_flip(a: VersionModel, b: VersionModel)
    ensures
        cmp_version(a, b) == Cmp::Lt <==> cmp_version(b, a) == Cmp::Gt,
        cmp_version(a, b) == Cmp::Eq <==> cmp_version(b, a) == Cmp::Eq,
{
    lemma_cmp_ids_flip(a.pre, b.pre);
}

/// The order is transitive.
pub proof fn lemma_cmp_version_trans(a: VersionModel, b: VersionModel, c: VersionModel)
    requires
        cmp_version(a, b) == Cmp::Lt,
        cmp_version(b, c) == Cmp::Lt,
    ensures
        cmp_version(a, c) == Cmp::Lt,
{
    if a.major == b.major && b.major == c.major && a.minor == b.minor && b.minor == c.minor
        && a.patch == b.patch && b.patch == c.patch && a.pre.len() > 0 && b.pre.len() > 0
        && c.pre.len() > 0 {
        lemma_cmp_ids_trans(a.pre, b.pre, c.pre);
    }
}

fn cmp_bytes_exec(a: &[u8], b: &[u8]) -> (r: Cmp)
    ensures
        r == cmp_bytes(a@, b@),
{
    let mut i: usize = 0;
    let n = if a.len() < b.len() {
        a.len()
    } else {
        b.len()
    };
    proof {
        assert(a@.skip(0) =~= a@ && b@.skip(0) =~= b@);
    }
    while i < n && a[i] == b[i]
        invariant
            i <= n,
            n == if a@.len() < b@.len() {
                a@.len()
            } else {
                b@.len()
            },
            forall|j: int| 0 <= j < i ==> #[trigger] a@[j] == b@[j],
            cmp_bytes(a@, b@) == cmp_bytes(a@.skip(i as int), b@.skip(i as int)),
        decreases n - i,
    {
        proof {
            assert(a@.skip(i as int).drop_first() =~= a@.skip(i + 1));
            assert(b@.skip(i as int).drop_first() =~= b@.skip(i + 1));
        }
        i += 1;
    }
    proof {
        assert(a@.skip(0) =~= a@ && b@.skip(0) =~= b@);
    }
    if i < a.len() && i < b.len() {
        if a[i] < b[i] {
            Cmp::Lt
        } else {
            assert(a@[i as int] > b@[i as int]);
            Cmp::Gt
        }
    } else if i < b.len() {
        Cmp::Lt
    } else if i < a.len() {
        Cmp::Gt
    } else {
        Cmp::Eq
    }
}

fn cmp_id_exec(a: &PreId, b: &PreId) -> (r: Cmp)
    ensures
        r == cmp_id(a@, b@),
{
    match (a, b) {
        (PreId::Num(x), PreId::Num(y)) => {
            if x < y {
                Cmp::Lt
            } else if x == y {
                Cmp::Eq
            } else {
                Cmp::Gt
            }
        },
        (PreId::Num(_), PreId::Alpha(_)) => Cmp::Lt,
        (PreId::Alpha(_), PreId::Num(_)) => Cmp::Gt,
        (PreId::Alpha(x), PreId::Alpha(y)) => cmp_bytes_exec(x.as_slice(), y.as_slice()),
    }
}

fn cmp_ids_exec(a: &Vec<PreId>, b: &Vec<PreId>) -> (r: Cmp)
    ensures
        r == cmp_ids(crate::version::pre_views(a@), crate::version::pre_views(b@)),
{
    let ghost av = crate::version::pre_views(a@);
    let ghost bv = crate::version::pre_views(b@);
    let mut i: usize = 0;
    let n = if a.len() < b.len() {
        a.len()
    } else {
        b.len()
    };
    let mut early: Option<Cmp> = None;
    proof {
        assert(av.skip(0) =~= av && bv.skip(0) =~= bv);
    }
    while i < n && early.is_none()
        invariant
            i <= n,
            n == if av.len() < bv.len() {
                av.len()
            } else {
                bv.len()
            },
            av == crate::version::pre_views(a@),
            bv == crate::version::pre_views(b@),
            av.len() == a@.len() && bv.len() == b@.len(),
            early is None ==> cmp_ids(av, bv) == cmp_ids(av.skip(i as int), bv.skip(i as int)),
            early matches Some(c) ==> cmp_ids(av, bv) == c && c != Cmp::Eq,
        decreases n - i, (if early.is_none() { 1int } else { 0int }),
    {
        let c = cmp_id_exec(&a[i], &b[i]);
        if matches!(c, Cmp::Eq) {
            proof {
                assert(av.skip(i as int)[0] == av[i as int]);
                assert(bv.skip(i as int)[0] == bv[i as int]);
                assert(av.skip(i as int).drop_first() =~= av.skip(i + 1));
                assert(bv.skip(i as int).drop_first() =~= bv.skip(i + 1));
            }
            i += 1;
        } else {
            proof {
                assert(av.skip(i as int)[0] == av[i as int]);
                assert(bv.skip(i as int)[0] == bv[i as int]);
            }
            early = Some(c);
        }
    }
    match early {
        Some(c) => c,
        None => {
            proof {
                assert(av.skip(0) =~= av && bv.skip(0) =~= bv);
            }
            if i < b.len() {
                Cmp::Lt
            } else if i < a.len() {
                Cmp::Gt
            } else {
                Cmp::Eq
            }
        },
    }
}

/// Compares two versions under the total order.
pub fn compare_versions(a: &Version, b: &Version) -> (r: Cmp)
    ensures
        r == cmp_version(a@, b@),
{
    if a.major != b.major {
        if a.major < b.major {
            return Cmp::Lt;
        }
        return Cmp::Gt;
    }
    if a.minor != b.minor {
        if a.minor < b.minor {
            return Cmp::Lt;
        }
        return Cmp::Gt;
    }
    if a.patch != b.patch {
        if a.patch < b.patch {
            return Cmp::Lt;
        }
        return Cmp::Gt;
    }
    let an = a.pre.len();
    let bn = b.pre.len();
    if an == 0 && bn == 0 {
        Cmp::Eq
    } else if an == 0 {
        Cmp::Gt
    } else if bn == 0 {
        Cmp::Lt
    } else {
        cmp_ids_exec(&a.pre, &b.pre)
    }
}

/// A patch increment yields a strictly greater version and never changes the
/// major or minor component.
pub proof fn lemma_increment_patch_increases(v: VersionModel)
    requires
        v.patch < u64::MAX,
    ensures
        cmp_version(v, crate::version::spec_increment_patch(v)) == Cmp::Lt,
        crate::version::spec_increment_patch(v).major == v.major,
        crate::version::spec_increment_patch(v).minor == v.minor,
{
}

/// A minor increment zeroes the patch component and strips the pre-release
/// part.
pub proof fn lemma_increment_minor_resets(v: VersionModel)
    ensures
        crate::version::spec_increment_minor(v).patch == 0,
        crate::version::spec_increment_minor(v).pre.len() == 0,
        crate::version::spec_increment_minor(v).major == v.major,
{
}

/// A major increment zeroes the minor and patch components and strips the
/// pre-release part.
pub proof fn lemma_increment_major_resets(v: VersionModel)
    ensures
        crate::version::spec_increment_major(v).minor == 0,
        crate::version::spec_increment_major(v).patch == 0,
        crate::version::spec_increment_major(v).pre.len() == 0,
{
}

} // verus!
