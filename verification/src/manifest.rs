//! The manifest patcher. The manifest is opaque text except for one
//! line-based pattern: a line that begins with the key `version`, then
//! optional whitespace, `=`, optional whitespace, and a double-quoted value
//! running to the first closing quote, with only whitespace after it. The
//! first such line has its quoted value replaced; every other byte of the
//! text is preserved. Matching several lines is a documented limitation of
//! the pattern: only the first is touched.

use vstd::prelude::*;
use crate::lines::{join_lines, line_views, split_lines};
use crate::version::{find, spec_format, Version};
use crate::ReleaseError;

verus! {

/// Whitespace within a manifest line.
pub open spec fn is_ws(b: u8) -> bool {
    b == 0x20 || b == 0x09 || b == 0x0d
}

/// First index at or after `i` holding a non-whitespace byte, or the line
/// length.
pub open spec fn skip_ws(line: Seq<u8>, i: int) -> int
    decreases line.len() - i,
{
    if i < 0 {
        0
    } else if !(i < line.len()) {
        line.len() as int
    } else if is_ws(line[i]) {
        skip_ws(line, i + 1)
    } else {
        i
    }
}

pub open spec fn all_ws_from(line: Seq<u8>, i: int) -> bool {
    forall|j: int| i <= j < line.len() ==> is_ws(#[trigger] line[j])
}

/// The bytes of the key `version`.
pub open spec fn version_key() -> Seq<u8> {
    seq![0x76u8, 0x65, 0x72, 0x73, 0x69, 0x6f, 0x6e]
}

/// Start of the quoted value in a matching line: one past the opening quote.
pub open spec fn value_start(line: Seq<u8>) -> int {
    skip_ws(line, skip_ws(line, 7) + 1) + 1
}

/// Index of the closing quote in a matching line.
pub open spec fn value_end(line: Seq<u8>) -> int {
    value_start(line) + find(line.skip(value_start(line)), 0x22)
}

/// Whether a line matches the version-field pattern.
pub open spec fn line_match(line: Seq<u8>) -> bool {
    let eq_pos = skip_ws(line, 7);
    let quote_pos = skip_ws(line, eq_pos + 1);
    &&& line.len() >= 7
    &&& line.take(7) == version_key()
    &&& eq_pos < line.len() && line[eq_pos] == 0x3d
    &&& quote_pos < line.len() && line[quote_pos] == 0x22
    &&& value_end(line) < line.len()
    &&& all_ws_from(line, value_end(line) + 1)
}

/// The matching line with its quoted value replaced by `vtext`; all bytes
/// through the opening quote and from the closing quote on are kept.
pub open spec fn spec_rewrite_line(line: Seq<u8>, vtext: Seq<u8>) -> Seq<u8> {
    line.take(value_start(line)) + vtext + line.skip(value_end(line))
}

/// Index of the first matching line, or the number of lines if none match.
pub open spec fn first_match(ls: Seq<Seq<u8>>) -> int
    decreases ls.len(),
{
    if ls.len() == 0 {
        0
    } else if line_match(ls[0]) {
        0
    } else {
        1 + first_match(ls.drop_first())
    }
}

pub proof fn lemma_first_match(ls: Seq<Seq<u8>>)
    ensures
        0 <= first_match(ls) <= ls.len(),
        first_match(ls) < ls.len() ==> line_match(ls[first_match(ls)]),
        forall|j: int| 0 <= j < first_match(ls) ==> !line_match(#[trigger] ls[j]),
    decreases ls.len(),
{
    if ls.len() > 0 && !line_match(ls[0]) {
        lemma_first_match(ls.drop_first());
        assert forall|j: int| 0 <= j < first_match(ls) implies !line_match(#[trigger] ls[j]) by {
            if j > 0 {
                assert(ls.drop_first()[j - 1] == ls[j]);
            }
        }
    }
}

/// The patched manifest: the first matching line rewritten, every other
/// line, and every line terminator, byte-identical; no matching line, no
/// result.
pub open spec fn spec_patch(text: Seq<u8>, vtext: Seq<u8>) -> Option<Seq<u8>> {
    let ls = split_lines(text);
    let k = first_match(ls);
    if !(0 <= k < ls.len()) {
        None
    } else {
        Some(join_lines(ls.update(k, spec_rewrite_line(ls[k], vtext))))
    }
}

/// The patch touches exactly one line: the first that matches. Earlier
/// lines do not match, and every line but that one is kept as it is.
pub proof fn lemma_patch_replaces_first_only(text: Seq<u8>, vtext: Seq<u8>)
    requires
        spec_patch(text, vtext) is Some,
    ensures
        ({
            let ls = split_lines(text);
            let k = first_match(ls);
            &&& 0 <= k < ls.len()
            &&& line_match(ls[k])
            &&& forall|j: int| 0 <= j < k ==> !line_match(#[trigger] ls[j])
            &&& spec_patch(text, vtext) == Some(
                join_lines(ls.update(k, spec_rewrite_line(ls[k], vtext))),
            )
            &&& forall|j: int|
                0 <= j < ls.len() && j != k ==> ls.update(k, spec_rewrite_line(ls[k], vtext))[j]
                    == ls[j]
        }),
{
    lemma_first_match(split_lines(text));
}

/// A manifest without a matching line is reported, never altered.
pub proof fn lemma_patch_none_no_match(text: Seq<u8>, vtext: Seq<u8>)
    requires
        spec_patch(text, vtext) is None,
    ensures
        forall|j: int|
            0 <= j < split_lines(text).len() ==> !line_match(#[trigger] split_lines(text)[j]),
{
    lemma_first_match(split_lines(text));
}

fn skip_ws_exec(line: &[u8], i: usize) -> (r: usize)
    requires
        i <= line@.len(),
    ensures
        r == skip_ws(line@, i as int),
        i <= r <= line@.len(),
    decreases line@.len() - i,
{
    if i == line.len() {
        return i;
    }
    let b = line[i];
    if b == 0x20 || b == 0x09 || b == 0x0d {
        skip_ws_exec(line, i + 1)
    } else {
        i
    }
}

/// Whether a line matches the pattern; on a match, the half-open byte range
/// of the quoted value.
pub fn line_match_exec(line: &[u8]) -> (r: Option<(usize, usize)>)
    ensures
        match r {
            Some(p) => line_match(line@) && p.0 == value_start(line@) && p.1 == value_end(line@)
                && p.0 <= p.1 < line@.len(),
            None => !line_match(line@),
        },
{
    if line.len() < 7 {
        return None;
    }
    if !(line[0] == 0x76 && line[1] == 0x65 && line[2] == 0x72 && line[3] == 0x73 && line[4]
        == 0x69 && line[5] == 0x6f && line[6] == 0x6e) {
        proof {
            if line@.take(7) == version_key() {
                assert(line@.take(7)[0] == 0x76 && line@.take(7)[1] == 0x65 && line@.take(7)[2]
                    == 0x72 && line@.take(7)[3] == 0x73 && line@.take(7)[4] == 0x69 && line@.take(
                    7,
                )[5] == 0x6f && line@.take(7)[6] == 0x6e);
            }
        }
        return None;
    }
    proof {
        assert(line@.take(7) =~= version_key());
    }
    let eq_pos = skip_ws_exec(line, 7);
    if eq_pos == line.len() || line[eq_pos] != 0x3d {
        return None;
    }
    let quote_pos = skip_ws_exec(line, eq_pos + 1);
    if quote_pos == line.len() || line[quote_pos] != 0x22 {
        return None;
    }
    let q = crate::version::find_byte(line, quote_pos + 1, 0x22);
    proof {
        assert(value_start(line@) == quote_pos + 1);
        assert(q - (quote_pos + 1) == find(line@.skip(quote_pos + 1 as int), 0x22));
    }
    if q == line.len() {
        return None;
    }
    proof {
        assert(value_end(line@) == q);
    }
    let mut j = q + 1;
    while j < line.len()
        invariant
            q + 1 <= j <= line@.len(),
            value_end(line@) == q,
            forall|m: int| q + 1 <= m < j ==> is_ws(#[trigger] line@[m]),
        decreases line@.len() - j,
    {
        let b = line[j];
        if !(b == 0x20 || b == 0x09 || b == 0x0d) {
            proof {
                assert(!is_ws(line@[j as int]));
                assert(value_end(line@) == q);
                assert(!all_ws_from(line@, q + 1 as int));
            }
            return None;
        }
        j += 1;
    }
    Some((quote_pos + 1, q))
}

/// Rewrites the version field of the manifest to name `v`, leaving every
/// other byte as it was; fails with `VersionFieldNotFound` when no line
/// matches the pattern.
pub fn patch_manifest(text: &[u8], v: &Version) -> (r: Result<Vec<u8>, ReleaseError>)
    ensures
        match r {
            Ok(out) => spec_patch(text@, spec_format(v@)) == Some(out@),
            Err(e) => e is VersionFieldNotFound && spec_patch(text@, spec_format(v@)) is None,
        },
{
    let ghost ls = split_lines(text@);
    let mut lines = crate::lines::split_lines_exec(text);
    let n = lines.len();
    let mut i: usize = 0;
    let mut found: Option<(usize, usize)> = None;
    while i < n && found.is_none()
        invariant
            i <= n,
            n == lines@.len(),
            line_views(lines@) == ls,
            forall|j: int| 0 <= j < i ==> !line_match(#[trigger] ls[j]),
            match found {
                Some(p) => i < n && line_match(ls[i as int]) && p.0 == value_start(ls[i as int])
                    && p.1 == value_end(ls[i as int]) && p.0 <= p.1 < ls[i as int].len(),
                None => true,
            },
        decreases n - i, (if found.is_none() { 1int } else { 0int }),
    {
        match line_match_exec(lines[i].as_slice()) {
            Some(p) => {
                found = Some(p);
            },
            None => {
                i += 1;
            },
        }
    }
    match found {
        None => {
            proof {
                lemma_first_match(ls);
                if first_match(ls) < ls.len() {
                    assert(line_match(ls[first_match(ls)]));
                }
            }
            Err(ReleaseError::VersionFieldNotFound)
        },
        Some((a, b)) => {
            proof {
                lemma_first_match(ls);
                if first_match(ls) < i {
                    assert(!line_match(ls[first_match(ls)]));
                }
            }
            assert(first_match(ls) == i);
            let old_line = lines.remove(i);
            let vtext = crate::version::format_version(v);
            let mut new_line: Vec<u8> = Vec::new();
            crate::version::append_bytes(
                &mut new_line,
                vstd::slice::slice_subrange(old_line.as_slice(), 0, a),
            );
            crate::version::append_bytes(&mut new_line, vtext.as_slice());
            crate::version::append_bytes(
                &mut new_line,
                vstd::slice::slice_subrange(old_line.as_slice(), b, old_line.len()),
            );
            proof {
                assert(new_line@ =~= spec_rewrite_line(ls[i as int], spec_format(v@)));
            }
            lines.insert(i, new_line);
            proof {
                assert(line_views(lines@) =~= ls.update(
                    i as int,
                    spec_rewrite_line(ls[i as int], spec_format(v@)),
                ));
            }
            let out = crate::lines::join_lines_exec(&lines);
            Ok(out)
        },
    }
}

} // verus!
