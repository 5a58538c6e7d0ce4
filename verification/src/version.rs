//! Semantic versions: the value type, its textual grammar
//! `MAJOR.MINOR.PATCH[-PRERELEASE]`, parsing and formatting.
//!
//! Version text is handled as bytes. A numeric component is canonical: one or
//! more ASCII digits, no leading zero unless the component is exactly `0`, and
//! a value that fits in a 64-bit integer. A pre-release identifier is a
//! non-empty run of ASCII alphanumerics; an identifier in canonical numeric
//! form is ordered numerically, any other identifier textually.

use vstd::prelude::*;

verus! {

/// A pre-release identifier: numeric, or an alphanumeric token kept verbatim.
pub enum PreId {
    Num(u64),
    Alpha(Vec<u8>),
}

/// Mathematical model of a pre-release identifier.
pub enum PreIdModel {
    Num(u64),
    Alpha(Seq<u8>),
}

impl View for PreId {
    type V = PreIdModel;

    open spec fn view(&self) -> PreIdModel {
        match self {
            PreId::Num(n) => PreIdModel::Num(*n),
            PreId::Alpha(t) => PreIdModel::Alpha(t@),
        }
    }
}

/// A semantic version: ordered triple plus optional pre-release identifiers.
/// Components are non-negative by construction.
pub struct Version {
    pub major: u64,
    pub minor: u64,
    pub patch: u64,
    pub pre: Vec<PreId>,
}

/// Mathematical model of a semantic version.
pub struct VersionModel {
    pub major: u64,
    pub minor: u64,
    pub patch: u64,
    pub pre: Seq<PreIdModel>,
}

pub open spec fn pre_views(ids: Seq<PreId>) -> Seq<PreIdModel> {
    ids.map_values(|p: PreId| p@)
}

impl View for Version {
    type V = VersionModel;

    open spec fn view(&self) -> VersionModel {
        VersionModel { major: self.major, minor: self.minor, patch: self.patch, pre: pre_views(self.pre@) }
    }
}

pub open spec fn is_digit(b: u8) -> bool {
    0x30 <= b && b <= 0x39
}

pub open spec fn is_alnum(b: u8) -> bool {
    is_digit(b) || (0x41 <= b && b <= 0x5a) || (0x61 <= b && b <= 0x7a)
}

pub open spec fn all_digits(s: Seq<u8>) -> bool {
    forall|i: int| 0 <= i < s.len() ==> is_digit(#[trigger] s[i])
}

/// Non-empty, every byte alphanumeric: the shape of a pre-release identifier.
pub open spec fn valid_id_text(s: Seq<u8>) -> bool {
    s.len() > 0 && forall|i: int| 0 <= i < s.len() ==> is_alnum(#[trigger] s[i])
}

/// Value of a digit string, most significant digit first.
pub open spec fn digits_val(s: Seq<u8>) -> int
    decreases s.len(),
{
    if s.len() == 0 {
        0
    } else {
        digits_val(s.drop_last()) * 10 + (s.last() - 0x30)
    }
}

/// Canonical numeric component text: digits only, no superfluous leading
/// zero, value within the 64-bit range.
pub open spec fn canonical_num(s: Seq<u8>) -> bool {
    &&& s.len() > 0
    &&& all_digits(s)
    &&& (s.len() > 1 ==> s[0] != 0x30)
    &&& digits_val(s) <= u64::MAX
}

/// Decimal text of a non-negative integer.
pub open spec fn repr(n: int) -> Seq<u8>
    recommends
        n >= 0,
    decreases n,
{
    if n < 10 {
        seq![(0x30 + n) as u8]
    } else {
        repr(n / 10).push((0x30 + n % 10) as u8)
    }
}

/// Index of the first occurrence of `c` in `s`, or `s.len()` if absent.
pub open spec fn find(s: Seq<u8>, c: u8) -> int
    decreases s.len(),
{
    if s.len() == 0 {
        0
    } else if s[0] == c {
        0
    } else {
        1 + find(s.drop_first(), c)
    }
}

pub proof fn lemma_find_char(s: Seq<u8>, c: u8)
    ensures
        0 <= find(s, c) <= s.len(),
        find(s, c) < s.len() ==> s[find(s, c)] == c,
        forall|j: int| 0 <= j < find(s, c) ==> #[trigger] s[j] != c,
    decreases s.len(),
{
    if s.len() == 0 {
    } else if s[0] == c {
    } else {
        lemma_find_char(s.drop_first(), c);
        assert forall|j: int| 0 <= j < find(s, c) implies #[trigger] s[j] != c by {
            if j > 0 {
                assert(s.drop_first()[j - 1] != c);
            }
        }
    }
}

/// The properties in `lemma_find_char` determine `find` uniquely.
pub proof fn lemma_find_unique(s: Seq<u8>, c: u8, k: int)
    requires
        0 <= k <= s.len(),
        k < s.len() ==> s[k] == c,
        forall|j: int| 0 <= j < k ==> #[trigger] s[j] != c,
    ensures
        find(s, c) == k,
{
    lemma_find_char(s, c);
    if find(s, c) < k {
        assert(s[find(s, c)] != c);
    } else if find(s, c) > k {
        assert(s[k] != c);
    }
}

/// Identifier classification: a canonical numeric token becomes a numeric
/// identifier, everything else is kept verbatim.
pub open spec fn classify_id(t: Seq<u8>) -> PreIdModel {
    if canonical_num(t) {
        PreIdModel::Num(digits_val(t) as u64)
    } else {
        PreIdModel::Alpha(t)
    }
}

/// Text of one pre-release identifier.
pub open spec fn id_text(p: PreIdModel) -> Seq<u8> {
    match p {
        PreIdModel::Num(n) => repr(n as int),
        PreIdModel::Alpha(t) => t,
    }
}

/// Dot-joined text of a pre-release identifier sequence.
pub open spec fn pre_text(pre: Seq<PreIdModel>) -> Seq<u8>
    decreases pre.len(),
{
    if pre.len() == 0 {
        Seq::empty()
    } else if pre.len() == 1 {
        id_text(pre[0])
    } else {
        id_text(pre[0]) + seq![0x2eu8] + pre_text(pre.drop_first())
    }
}

/// Canonical text of a version: `MAJOR.MINOR.PATCH`, then `-` and the
/// dot-joined identifiers when a pre-release part is present.
pub open spec fn spec_format(v: VersionModel) -> Seq<u8> {
    repr(v.major as int) + seq![0x2eu8] + repr(v.minor as int) + seq![0x2eu8] + repr(v.patch as int)
        + if v.pre.len() == 0 {
        Seq::<u8>::empty()
    } else {
        seq![0x2du8] + pre_text(v.pre)
    }
}

/// A numeric component parses exactly when its text is canonical.
pub open spec fn parse_num(s: Seq<u8>) -> Option<u64> {
    if canonical_num(s) {
        Some(digits_val(s) as u64)
    } else {
        None
    }
}

/// The `MAJOR.MINOR.PATCH` part: two dots, three canonical numbers.
pub open spec fn parse_core(s: Seq<u8>) -> Option<(u64, u64, u64)> {
    let i = find(s, 0x2e);
    if !(0 <= i < s.len()) {
        None
    } else {
        let rest = s.skip(i + 1);
        let j = find(rest, 0x2e);
        if !(0 <= j < rest.len()) {
            None
        } else {
            match (parse_num(s.take(i)), parse_num(rest.take(j)), parse_num(rest.skip(j + 1))) {
                (Some(a), Some(b), Some(c)) => Some((a, b, c)),
                _ => None,
            }
        }
    }
}

/// The pre-release part: one or more dot-separated identifiers.
pub open spec fn parse_pre(s: Seq<u8>) -> Option<Seq<PreIdModel>>
    decreases s.len(),
{
    let k = find(s, 0x2e);
    if !(0 <= k < s.len()) {
        if valid_id_text(s) {
            Some(seq![classify_id(s)])
        } else {
            None
        }
    } else {
        if valid_id_text(s.take(k)) {
            match parse_pre(s.skip(k + 1)) {
                Some(rest) => Some(seq![classify_id(s.take(k))] + rest),
                None => None,
            }
        } else {
            None
        }
    }
}

/// The full grammar: an optional pre-release part follows the first `-`.
pub open spec fn spec_parse(s: Seq<u8>) -> Option<VersionModel> {
    let d = find(s, 0x2d);
    if !(0 <= d < s.len()) {
        match parse_core(s) {
            Some((a, b, c)) => Some(VersionModel { major: a, minor: b, patch: c, pre: Seq::empty() }),
            None => None,
        }
    } else {
        match (parse_core(s.take(d)), parse_pre(s.skip(d + 1))) {
            (Some((a, b, c)), Some(pre)) => Some(
                VersionModel { major: a, minor: b, patch: c, pre: pre },
            ),
            _ => None,
        }
    }
}

pub proof fn lemma_digits_val_nonneg(s: Seq<u8>)
    requires
        all_digits(s),
    ensures
        digits_val(s) >= 0,
    decreases s.len(),
{
    if s.len() > 0 {
        assert(all_digits(s.drop_last())) by {
            assert(forall|i: int| 0 <= i < s.len() - 1 ==> #[trigger] s.drop_last()[i] == s[i]);
        }
        lemma_digits_val_nonneg(s.drop_last());
    }
}

/// The value of a prefix never exceeds the value of the whole digit string.
pub proof fn lemma_digits_val_take_le(s: Seq<u8>, i: int)
    requires
        all_digits(s),
        0 <= i <= s.len(),
    ensures
        digits_val(s.take(i)) <= digits_val(s),
    decreases s.len(),
{
    if i == s.len() {
        assert(s.take(i) =~= s);
    } else {
        assert(all_digits(s.drop_last())) by {
            assert(forall|j: int| 0 <= j < s.len() - 1 ==> #[trigger] s.drop_last()[j] == s[j]);
        }
        assert(s.take(i) =~= s.drop_last().take(i));
        lemma_digits_val_take_le(s.drop_last(), i);
        lemma_digits_val_nonneg(s.drop_last());
    }
}

/// A digit string without a leading zero has value at least one; with two or
/// more digits, at least ten.
pub proof fn lemma_digits_val_lower(s: Seq<u8>)
    requires
        s.len() >= 1,
        all_digits(s),
        s[0] != 0x30,
    ensures
        digits_val(s) >= 1,
        s.len() >= 2 ==> digits_val(s) >= 10,
    decreases s.len(),
{
    if s.len() == 1 {
    } else {
        assert(all_digits(s.drop_last())) by {
            assert(forall|j: int| 0 <= j < s.len() - 1 ==> #[trigger] s.drop_last()[j] == s[j]);
        }
        assert(s.drop_last()[0] == s[0]);
        lemma_digits_val_lower(s.drop_last());
        assert(is_digit(s[s.len() - 1]));
        assert(s.last() - 0x30 >= 0);
        assert(digits_val(s) == digits_val(s.drop_last()) * 10 + (s.last() - 0x30));
    }
}

/// Formatting inverts the value of a canonical digit string.
pub proof fn lemma_repr_digits(s: Seq<u8>)
    requires
        canonical_num(s),
    ensures
        repr(digits_val(s)) == s,
    decreases s.len(),
{
    let n = digits_val(s);
    let d = s.last() - 0x30;
    if s.len() == 1 {
        assert(repr(n) =~= s);
    } else {
        let q = s.drop_last();
        assert(all_digits(q)) by {
            assert(forall|j: int| 0 <= j < s.len() - 1 ==> #[trigger] q[j] == s[j]);
        }
        assert(q[0] == s[0]);
        lemma_digits_val_lower(q);
        lemma_digits_val_nonneg(q);
        assert(n == digits_val(q) * 10 + d);
        assert(n >= 10);
        assert(n / 10 == digits_val(q) && n % 10 == d) by (nonlinear_arith)
            requires
                n == digits_val(q) * 10 + d,
                digits_val(q) >= 0,
                0 <= d < 10,
        ;
        assert(canonical_num(q));
        lemma_repr_digits(q);
        assert(repr(n) == q.push((0x30 + d) as u8));
        assert(repr(n) =~= s);
    }
}

/// Decimal formatting of a machine integer.
pub fn format_u64(n: u64) -> (r: Vec<u8>)
    ensures
        r@ == repr(n as int),
    decreases n,
{
    if n < 10 {
        let mut r: Vec<u8> = Vec::new();
        r.push(0x30 + (n as u8));
        proof {
            assert(r@ =~= repr(n as int));
        }
        r
    } else {
        let mut r = format_u64(n / 10);
        r.push(0x30 + ((n % 10) as u8));
        r
    }
}

/// Appends `src` to `dst`.
pub(crate) fn append_bytes(dst: &mut Vec<u8>, src: &[u8])
    ensures
        final(dst)@ == old(dst)@ + src@,
{
    let mut i: usize = 0;
    while i < src.len()
        invariant
            i <= src.len(),
            dst@ == old(dst)@ + src@.take(i as int),
        decreases src.len() - i,
    {
        dst.push(src[i]);
        proof {
            assert(old(dst)@ + src@.take(i as int) + seq![src@[i as int]] =~= old(dst)@ + src@.take(
                i + 1,
            ));
        }
        i += 1;
    }
    proof {
        assert(src@.take(src@.len() as int) =~= src@);
    }
}

fn format_pre_from(ids: &Vec<PreId>, i: usize) -> (r: Vec<u8>)
    requires
        i < ids@.len(),
    ensures
        r@ == pre_text(pre_views(ids@).skip(i as int)),
    decreases ids@.len() - i,
{
    let ghost tail = pre_views(ids@).skip(i as int);
    let mut r: Vec<u8> = Vec::new();
    match &ids[i] {
        PreId::Num(n) => {
            let digits = format_u64(*n);
            append_bytes(&mut r, digits.as_slice());
        },
        PreId::Alpha(t) => {
            append_bytes(&mut r, t.as_slice());
        },
    }
    assert(r@ == id_text(tail[0]));
    if i < ids.len() - 1 {
        r.push(0x2e);
        let rest = format_pre_from(ids, i + 1);
        append_bytes(&mut r, rest.as_slice());
        proof {
            assert(tail.drop_first() =~= pre_views(ids@).skip(i + 1));
            assert(r@ =~= id_text(tail[0]) + seq![0x2eu8] + pre_text(tail.drop_first()));
        }
    } else {
        proof {
            assert(tail.len() == 1);
        }
    }
    r
}

/// Canonical text of a version, per the grammar.
pub fn format_version(v: &Version) -> (r: Vec<u8>)
    ensures
        r@ == spec_format(v@),
{
    let mut r = format_u64(v.major);
    r.push(0x2e);
    let minor = format_u64(v.minor);
    append_bytes(&mut r, minor.as_slice());
    r.push(0x2e);
    let patch = format_u64(v.patch);
    append_bytes(&mut r, patch.as_slice());
    if v.pre.len() > 0 {
        r.push(0x2d);
        let pre = format_pre_from(&v.pre, 0);
        append_bytes(&mut r, pre.as_slice());
        proof {
            assert(pre_views(v.pre@).skip(0) =~= v@.pre);
            assert(r@ =~= spec_format(v@));
        }
    } else {
        proof {
            assert(r@ =~= spec_format(v@));
        }
    }
    r
}

/// Position of the first `c` at or after `from`, or the length of `s`.
pub(crate) fn find_byte(s: &[u8], from: usize, c: u8) -> (i: usize)
    requires
        from <= s@.len(),
    ensures
        from <= i <= s@.len(),
        i - from == find(s@.skip(from as int), c),
        i < s@.len() ==> s@[i as int] == c,
        forall|j: int| from <= j < i ==> #[trigger] s@[j] != c,
{
    let mut i = from;
    while i < s.len() && s[i] != c
        invariant
            from <= i <= s@.len(),
            forall|j: int| from <= j < i ==> #[trigger] s@[j] != c,
        decreases s@.len() - i,
    {
        i += 1;
    }
    proof {
        let t = s@.skip(from as int);
        assert forall|j: int| 0 <= j < i - from implies #[trigger] t[j] != c by {
            assert(t[j] == s@[from + j]);
        }
        lemma_find_unique(t, c, i - from);
    }
    i
}

/// Reads a numeric component from `s[lo..hi]`: succeeds exactly on canonical
/// numeric text.
pub(crate) fn scan_u64(s: &[u8], lo: usize, hi: usize) -> (r: Option<u64>)
    requires
        lo <= hi <= s@.len(),
    ensures
        r == parse_num(s@.subrange(lo as int, hi as int)),
{
    let ghost t = s@.subrange(lo as int, hi as int);
    if lo == hi {
        return None;
    }
    if s[lo] == 0x30 && hi - lo > 1 {
        assert(t[0] == 0x30);
        return None;
    }
    let limit: u64 = u64::MAX / 10;
    let last_digit: u64 = u64::MAX % 10;
    let mut acc: u64 = 0;
    let mut idx = lo;
    while idx < hi
        invariant
            lo <= idx <= hi <= s@.len(),
            t == s@.subrange(lo as int, hi as int),
            limit == u64::MAX / 10,
            last_digit == u64::MAX % 10,
            forall|j: int| 0 <= j < idx - lo ==> is_digit(#[trigger] t[j]),
            acc == digits_val(t.take(idx - lo)),
        decreases hi - idx,
    {
        let b = s[idx];
        assert(t[idx - lo] == b);
        if !(0x30 <= b && b <= 0x39) {
            assert(!all_digits(t));
            return None;
        }
        let d = (b - 0x30) as u64;
        proof {
            assert(t.take(idx - lo + 1).drop_last() =~= t.take(idx - lo));
            assert(t.take(idx - lo + 1).last() == t[idx - lo]);
        }
        if acc > limit || (acc == limit && d > last_digit) {
            proof {
                assert(digits_val(t.take(idx - lo + 1)) == acc * 10 + d);
                assert(acc * 10 + d > u64::MAX);
                if all_digits(t) {
                    lemma_digits_val_take_le(t, idx - lo + 1);
                }
            }
            return None;
        }
        acc = acc * 10 + d;
        idx += 1;
    }
    proof {
        assert(t.take(hi - lo) =~= t);
        assert(canonical_num(t));
    }
    Some(acc)
}

/// Whether `s[lo..hi]` has the shape of a pre-release identifier.
fn check_id(s: &[u8], lo: usize, hi: usize) -> (r: bool)
    requires
        lo <= hi <= s@.len(),
    ensures
        r == valid_id_text(s@.subrange(lo as int, hi as int)),
{
    let ghost t = s@.subrange(lo as int, hi as int);
    if lo == hi {
        return false;
    }
    let mut idx = lo;
    while idx < hi
        invariant
            lo <= idx <= hi <= s@.len(),
            t == s@.subrange(lo as int, hi as int),
            forall|j: int| 0 <= j < idx - lo ==> is_alnum(#[trigger] t[j]),
        decreases hi - idx,
    {
        let b = s[idx];
        assert(t[idx - lo] == b);
        if !((0x30 <= b && b <= 0x39) || (0x41 <= b && b <= 0x5a) || (0x61 <= b && b <= 0x7a)) {
            return false;
        }
        idx += 1;
    }
    true
}

fn classify_token(s: &[u8], lo: usize, hi: usize) -> (r: PreId)
    requires
        lo <= hi <= s@.len(),
    ensures
        r@ == classify_id(s@.subrange(lo as int, hi as int)),
{
    match scan_u64(s, lo, hi) {
        Some(n) => PreId::Num(n),
        None => {
            let sub = vstd::slice::slice_subrange(s, lo, hi);
            PreId::Alpha(vstd::slice::slice_to_vec(sub))
        },
    }
}

fn parse_pre_ids(s: &[u8], pos: usize) -> (r: Option<Vec<PreId>>)
    requires
        pos <= s@.len(),
    ensures
        match r {
            Some(ids) => parse_pre(s@.skip(pos as int)) == Some(pre_views(ids@)),
            None => parse_pre(s@.skip(pos as int)) is None,
        },
    decreases s@.len() - pos,
{
    let ghost t = s@.skip(pos as int);
    let k = find_byte(s, pos, 0x2e);
    if k == s.len() {
        if check_id(s, pos, k) {
            proof {
                assert(s@.subrange(pos as int, k as int) =~= t);
            }
            let head = classify_token(s, pos, k);
            let ids: Vec<PreId> = vec![head];
            proof {
                assert(pre_views(ids@) =~= seq![classify_id(t)]);
            }
            Some(ids)
        } else {
            proof {
                assert(s@.subrange(pos as int, k as int) =~= t);
            }
            None
        }
    } else {
        proof {
            assert(s@.subrange(pos as int, k as int) =~= t.take(k - pos));
        }
        if !check_id(s, pos, k) {
            return None;
        }
        proof {
            assert(s@.skip(k + 1 as int) =~= t.skip(k - pos + 1));
        }
        match parse_pre_ids(s, k + 1) {
            None => None,
            Some(rest) => {
                let head = classify_token(s, pos, k);
                let mut ids = rest;
                ids.insert(0, head);
                proof {
                    assert(pre_views(ids@) =~= seq![classify_id(t.take(k - pos))] + parse_pre(
                        t.skip(k - pos + 1),
                    ).unwrap());
                }
                Some(ids)
            },
        }
    }
}

/// Parses version text; succeeds exactly on the grammar of `spec_parse`, and
/// then returns its value.
#[verifier::rlimit(60)]
pub fn parse_version(s: &[u8]) -> (r: Result<Version, crate::ReleaseError>)
    ensures
        match r {
            Ok(v) => spec_parse(s@) == Some(v@),
            Err(e) => spec_parse(s@) is None && e is FormatError,
        },
{
    proof {
        assert(s@.skip(0) =~= s@);
    }
    let d = find_byte(s, 0, 0x2d);
    let ghost core = s@.take(d as int);
    proof {
        if d == s@.len() {
            assert(core =~= s@);
        }
    }
    let i = find_byte(s, 0, 0x2e);
    if i >= d {
        proof {
            assert forall|j: int| 0 <= j < core.len() implies #[trigger] core[j] != 0x2e by {
                assert(core[j] == s@[j]);
            }
            lemma_find_unique(core, 0x2e, core.len() as int);
        }
        return Err(crate::ReleaseError::FormatError);
    }
    proof {
        assert forall|j: int| 0 <= j < i implies #[trigger] core[j] != 0x2e by {
            assert(core[j] == s@[j]);
        }
        assert(core[i as int] == s@[i as int]);
        lemma_find_unique(core, 0x2e, i as int);
    }
    let ghost rest = core.skip(i + 1);
    let j = find_byte(s, i + 1, 0x2e);
    if j >= d {
        proof {
            assert forall|m: int| 0 <= m < rest.len() implies #[trigger] rest[m] != 0x2e by {
                assert(rest[m] == s@[i + 1 + m]);
            }
            lemma_find_unique(rest, 0x2e, rest.len() as int);
        }
        return Err(crate::ReleaseError::FormatError);
    }
    proof {
        assert forall|m: int| 0 <= m < j - (i + 1) implies #[trigger] rest[m] != 0x2e by {
            assert(rest[m] == s@[i + 1 + m]);
        }
        assert(rest[j - (i + 1)] == s@[j as int]);
        lemma_find_unique(rest, 0x2e, j - (i + 1));
        assert(core.take(i as int) =~= s@.subrange(0, i as int));
        assert(rest.take(j - (i + 1)) =~= s@.subrange(i + 1, j as int));
        assert(rest.skip(j - (i + 1) + 1) =~= s@.subrange(j + 1, d as int));
    }
    let major = match scan_u64(s, 0, i) {
        Some(n) => n,
        None => {
            return Err(crate::ReleaseError::FormatError);
        },
    };
    let minor = match scan_u64(s, i + 1, j) {
        Some(n) => n,
        None => {
            return Err(crate::ReleaseError::FormatError);
        },
    };
    let patch = match scan_u64(s, j + 1, d) {
        Some(n) => n,
        None => {
            return Err(crate::ReleaseError::FormatError);
        },
    };
    assert(parse_core(core) == Some((major, minor, patch)));
    if d == s.len() {
        let v = Version { major, minor, patch, pre: Vec::new() };
        proof {
            assert(pre_views(v.pre@) =~= Seq::<PreIdModel>::empty());
        }
        Ok(v)
    } else {
        match parse_pre_ids(s, d + 1) {
            None => Err(crate::ReleaseError::FormatError),
            Some(ids) => {
                let v = Version { major, minor, patch, pre: ids };
                Ok(v)
            },
        }
    }
}

pub proof fn lemma_id_text_classify(t: Seq<u8>)
    requires
        valid_id_text(t),
    ensures
        id_text(classify_id(t)) == t,
{
    if canonical_num(t) {
        lemma_digits_val_nonneg(t);
        lemma_repr_digits(t);
    }
}

pub proof fn lemma_pre_text_round(s: Seq<u8>)
    requires
        parse_pre(s) is Some,
    ensures
        pre_text(parse_pre(s).unwrap()) == s,
        parse_pre(s).unwrap().len() >= 1,
    decreases s.len(),
{
    let k = find(s, 0x2e);
    lemma_find_char(s, 0x2e);
    if !(0 <= k < s.len()) {
        lemma_id_text_classify(s);
    } else {
        let head = s.take(k);
        let rest = parse_pre(s.skip(k + 1)).unwrap();
        lemma_pre_text_round(s.skip(k + 1));
        lemma_id_text_classify(head);
        let pre = parse_pre(s).unwrap();
        assert(pre.drop_first() =~= rest);
        assert(pre_text(pre) == head + seq![0x2eu8] + pre_text(rest));
        assert(pre_text(pre) =~= s);
    }
}

pub proof fn lemma_core_round(s: Seq<u8>)
    requires
        parse_core(s) is Some,
    ensures
        ({
            let (a, b, c) = parse_core(s).unwrap();
            repr(a as int) + seq![0x2eu8] + repr(b as int) + seq![0x2eu8] + repr(c as int) == s
        }),
{
    let i = find(s, 0x2e);
    lemma_find_char(s, 0x2e);
    let rest = s.skip(i + 1);
    let j = find(rest, 0x2e);
    lemma_find_char(rest, 0x2e);
    let (a, b, c) = parse_core(s).unwrap();
    lemma_digits_val_nonneg(s.take(i));
    lemma_digits_val_nonneg(rest.take(j));
    lemma_digits_val_nonneg(rest.skip(j + 1));
    lemma_repr_digits(s.take(i));
    lemma_repr_digits(rest.take(j));
    lemma_repr_digits(rest.skip(j + 1));
    assert(rest =~= rest.take(j) + seq![0x2eu8] + rest.skip(j + 1));
    assert(s =~= s.take(i) + seq![0x2eu8] + rest);
    assert(repr(a as int) + seq![0x2eu8] + repr(b as int) + seq![0x2eu8] + repr(c as int) =~= s);
}

/// Round trip: formatting the result of a successful parse returns the
/// input text unchanged.
pub proof fn lemma_parse_format_round(s: Seq<u8>)
    requires
        spec_parse(s) is Some,
    ensures
        spec_format(spec_parse(s).unwrap()) == s,
{
    let d = find(s, 0x2d);
    lemma_find_char(s, 0x2d);
    let v = spec_parse(s).unwrap();
    if !(0 <= d < s.len()) {
        lemma_core_round(s);
        assert(spec_format(v) =~= s);
    } else {
        lemma_core_round(s.take(d));
        lemma_pre_text_round(s.skip(d + 1));
        assert(s =~= s.take(d) + seq![0x2du8] + s.skip(d + 1));
        assert(spec_format(v) =~= s);
    }
}

/// Model of a major increment: lower components zeroed, pre-release
/// stripped.
pub open spec fn spec_increment_major(v: VersionModel) -> VersionModel {
    VersionModel { major: (v.major + 1) as u64, minor: 0, patch: 0, pre: Seq::empty() }
}

/// Model of a minor increment: patch zeroed, pre-release stripped.
pub open spec fn spec_increment_minor(v: VersionModel) -> VersionModel {
    VersionModel { major: v.major, minor: (v.minor + 1) as u64, patch: 0, pre: Seq::empty() }
}

/// Model of a patch increment: pre-release stripped, all else kept.
pub open spec fn spec_increment_patch(v: VersionModel) -> VersionModel {
    VersionModel { major: v.major, minor: v.minor, patch: (v.patch + 1) as u64, pre: Seq::empty() }
}

/// Model of attaching a single pre-release identifier.
pub open spec fn spec_with_prerelease(v: VersionModel, label: Seq<u8>) -> VersionModel {
    VersionModel { major: v.major, minor: v.minor, patch: v.patch, pre: seq![classify_id(label)] }
}

pub fn increment_major(v: &Version) -> (r: Version)
    requires
        v.major < u64::MAX,
    ensures
        r@ == spec_increment_major(v@),
{
    let r = Version { major: v.major + 1, minor: 0, patch: 0, pre: Vec::new() };
    proof {
        assert(pre_views(r.pre@) =~= Seq::<PreIdModel>::empty());
    }
    r
}

pub fn increment_minor(v: &Version) -> (r: Version)
    requires
        v.minor < u64::MAX,
    ensures
        r@ == spec_increment_minor(v@),
{
    let r = Version { major: v.major, minor: v.minor + 1, patch: 0, pre: Vec::new() };
    proof {
        assert(pre_views(r.pre@) =~= Seq::<PreIdModel>::empty());
    }
    r
}

pub fn increment_patch(v: &Version) -> (r: Version)
    requires
        v.patch < u64::MAX,
    ensures
        r@ == spec_increment_patch(v@),
{
    let r = Version { major: v.major, minor: v.minor, patch: v.patch + 1, pre: Vec::new() };
    proof {
        assert(pre_views(r.pre@) =~= Seq::<PreIdModel>::empty());
    }
    r
}

/// A copy of `v` whose pre-release part is exactly the one identifier
/// `label`.
pub fn with_prerelease(v: &Version, label: Vec<u8>) -> (r: Version)
    requires
        valid_id_text(label@),
    ensures
        r@ == spec_with_prerelease(v@, label@),
{
    let ghost l = label@;
    let id = match scan_u64(label.as_slice(), 0, label.len()) {
        Some(n) => PreId::Num(n),
        None => PreId::Alpha(label),
    };
    proof {
        assert(l.subrange(0, l.len() as int) =~= l);
        assert(id@ == classify_id(l));
    }
    let mut pre: Vec<PreId> = Vec::new();
    pre.push(id);
    let r = Version { major: v.major, minor: v.minor, patch: v.patch, pre };
    proof {
        assert(pre_views(r.pre@) =~= seq![classify_id(l)]);
    }
    r
}

/// Whether two byte slices hold the same bytes.
fn bytes_eq(a: &[u8], b: &[u8]) -> (r: bool)
    ensures
        r == (a@ == b@),
{
    if a.len() != b.len() {
        return false;
    }
    let mut i: usize = 0;
    while i < a.len()
        invariant
            i <= a@.len(),
            a@.len() == b@.len(),
            forall|j: int| 0 <= j < i ==> #[trigger] a@[j] == b@[j],
        decreases a@.len() - i,
    {
        if a[i] != b[i] {
            return false;
        }
        i += 1;
    }
    proof {
        assert(a@ =~= b@);
    }
    true
}

fn pre_id_eq(a: &PreId, b: &PreId) -> (r: bool)
    ensures
        r == (a@ == b@),
{
    match (a, b) {
        (PreId::Num(x), PreId::Num(y)) => x == y,
        (PreId::Alpha(x), PreId::Alpha(y)) => bytes_eq(x.as_slice(), y.as_slice()),
        _ => false,
    }
}

/// Whether two versions are equal in every component, the pre-release
/// identifiers included.
pub fn version_eq(a: &Version, b: &Version) -> (r: bool)
    ensures
        r == (a@ == b@),
{
    if a.major != b.major || a.minor != b.minor || a.patch != b.patch {
        return false;
    }
    if a.pre.len() != b.pre.len() {
        assert(a@.pre.len() != b@.pre.len());
        return false;
    }
    let mut i: usize = 0;
    while i < a.pre.len()
        invariant
            i <= a.pre@.len(),
            a.pre@.len() == b.pre@.len(),
            forall|j: int| 0 <= j < i ==> #[trigger] a.pre@[j]@ == b.pre@[j]@,
        decreases a.pre@.len() - i,
    {
        if !pre_id_eq(&a.pre[i], &b.pre[i]) {
            assert(a@.pre[i as int] != b@.pre[i as int]);
            return false;
        }
        i += 1;
    }
    proof {
        assert(pre_views(a.pre@) =~= pre_views(b.pre@));
    }
    true
}

} // verus!
