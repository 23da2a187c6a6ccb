use vstd::prelude::*;

use crate::json::{json_of_text, parse_json_text, Json};
use crate::model::UpdateInfo;
use crate::text::{parse_u32, parse_unsigned, split_char, split_on};
use crate::zkill::{str_field, str_field_or};

verus! {

/// The numeric parts of a dotted version, leaving out those that do not read as a `u32`.
pub open spec fn numeric_parts(pieces: Seq<Seq<char>>) -> Seq<nat>
    decreases pieces.len(),
{
    if pieces.len() == 0 {
        Seq::empty()
    } else {
        let rest = numeric_parts(pieces.drop_last());
        match parse_unsigned(pieces.last(), u32::MAX as nat) {
            Some(n) => rest.push(n),
            None => rest,
        }
    }
}

/// The numeric parts of version `v`.
pub open spec fn version_parts(v: Seq<char>) -> Seq<nat> {
    numeric_parts(split_on(v, '.'))
}

/// Part `i` of a version, zero past its end.
pub open spec fn part_at(p: Seq<nat>, i: int) -> nat {
    if 0 <= i < p.len() {
        p[i]
    } else {
        0
    }
}

/// Whether `l` is greater than `c` from part `i` on, the shorter padded with zeros.
pub open spec fn newer_from(l: Seq<nat>, c: Seq<nat>, i: int) -> bool
    decreases l.len() + c.len() - i,
{
    if i < 0 || i >= l.len() && i >= c.len() {
        false
    } else if part_at(l, i) > part_at(c, i) {
        true
    } else if part_at(l, i) < part_at(c, i) {
        false
    } else {
        newer_from(l, c, i + 1)
    }
}

/// Version `latest` is greater than version `current`, part by part.
pub open spec fn is_newer(latest: Seq<char>, current: Seq<char>) -> bool {
    newer_from(version_parts(latest), version_parts(current), 0)
}

/// `s` without the `v` characters that lead it.
pub open spec fn without_v(s: Seq<char>) -> Seq<char>
    decreases s.len(),
{
    if s.len() > 0 && s[0] == 'v' {
        without_v(s.drop_first())
    } else {
        s
    }
}

/// The numeric parts of version `v`.
fn parse_version(v: &str) -> (r: Vec<u32>)
    ensures
        r@.len() == version_parts(v@).len(),
        forall|k: int| 0 <= k < r@.len() ==> r@[k] as nat == version_parts(v@)[k],
{
    let pieces = split_char(v, '.');
    let ghost all = split_on(v@, '.');
    let mut parts: Vec<u32> = Vec::new();
    let mut k: usize = 0;
    while k < pieces.len()
        invariant
            k <= pieces@.len(),
            pieces@.len() == all.len(),
            all == split_on(v@, '.'),
            forall|j: int| 0 <= j < pieces@.len() ==> (#[trigger] pieces@[j])@ == all[j],
            parts@.len() == numeric_parts(all.subrange(0, k as int)).len(),
            forall|j: int|
                0 <= j < parts@.len() ==> parts@[j] as nat == numeric_parts(
                    all.subrange(0, k as int),
                )[j],
        decreases pieces@.len() - k,
    {
        assert(all.subrange(0, k + 1).drop_last() =~= all.subrange(0, k as int));
        match parse_u32(pieces[k]) {
            Some(n) => parts.push(n),
            None => {},
        }
        k = k + 1;
    }
    assert(all.subrange(0, k as int) =~= all);
    parts
}

/// Whether version `latest` is greater than version `current`: parts compared in order as
/// numbers, a missing part counting as zero, parts that are not numbers left out.
pub fn is_newer_version(latest: &str, current: &str) -> (r: bool)
    ensures
        r == is_newer(latest@, current@),
{
    let l = parse_version(latest);
    let c = parse_version(current);
    let ghost lv = version_parts(latest@);
    let ghost cv = version_parts(current@);
    let n = if l.len() >= c.len() {
        l.len()
    } else {
        c.len()
    };
    let mut i: usize = 0;
    while i < n
        invariant
            i <= n,
            n == if lv.len() >= cv.len() {
                lv.len()
            } else {
                cv.len()
            },
            lv == version_parts(latest@),
            cv == version_parts(current@),
            l@.len() == lv.len(),
            c@.len() == cv.len(),
            forall|k: int| 0 <= k < l@.len() ==> l@[k] as nat == lv[k],
            forall|k: int| 0 <= k < c@.len() ==> c@[k] as nat == cv[k],
            newer_from(lv, cv, 0) == newer_from(lv, cv, i as int),
        decreases n - i,
    {
        let a: u32 = if i < l.len() {
            l[i]
        } else {
            0
        };
        let b: u32 = if i < c.len() {
            c[i]
        } else {
            0
        };
        assert(a as nat == part_at(lv, i as int));
        assert(b as nat == part_at(cv, i as int));
        assert(!(i < 0 || i >= lv.len() && i >= cv.len()));
        if a > b {
            assert(newer_from(lv, cv, i as int));
            return true;
        }
        if a < b {
            assert(!newer_from(lv, cv, i as int));
            return false;
        }
        i = i + 1;
    }
    false
}

/// `s` without the `v` characters that lead it.
pub fn strip_v(s: &str) -> (r: &str)
    ensures
        r@ == without_v(s@),
{
    let n = s.unicode_len();
    let mut i: usize = 0;
    assert(s@.subrange(0, n as int) =~= s@);
    while i < n && s.get_char(i) == 'v'
        invariant
            i <= n,
            n == s@.len(),
            without_v(s@) == without_v(s@.subrange(i as int, n as int)),
        decreases n - i,
    {
        assert(s@.subrange(i as int, n as int).drop_first() =~= s@.subrange(i + 1, n as int));
        i = i + 1;
    }
    s.substring_char(i, n)
}

/// The release that document `j` describes is an update over `current`, and `u` says so.
pub open spec fn is_update_of(u: UpdateInfo, current: Seq<char>, j: Json) -> bool {
    let latest = without_v(str_field_or(j, "tag_name"@, ""@));
    &&& u.current_version@ == current
    &&& u.latest_version@ == latest
    &&& u.release_url@ == str_field_or(j, "html_url"@, ""@)
    &&& u.release_notes@ == str_field_or(j, "body"@, ""@)
}

/// The update, if any, that the latest release `release_body` offers over version
/// `current`; an error where the body is not JSON.
pub fn update_from_release(current: &str, release_body: &str) -> (r: Result<
    Option<UpdateInfo>,
    String,
>)
    ensures
        match json_of_text(release_body@) {
            None => r is Err,
            Some(j) => {
                let latest = without_v(str_field_or(j, "tag_name"@, ""@));
                if is_newer(latest, current@) {
                    r matches Ok(Some(u)) && is_update_of(u, current@, j)
                } else {
                    r matches Ok(None)
                }
            },
        },
{
    let json = match parse_json_text(release_body) {
        Some(j) => j,
        None => {
            return Err(String::from_str("Failed to parse release"));
        },
    };
    let tag = str_field(&json, "tag_name", "");
    let latest = strip_v(tag.as_str());
    if is_newer_version(latest, current) {
        Ok(
            Some(
                UpdateInfo {
                    current_version: String::from_str(current),
                    latest_version: String::from_str(latest),
                    release_url: str_field(&json, "html_url", ""),
                    release_notes: str_field(&json, "body", ""),
                },
            ),
        )
    } else {
        Ok(None)
    }
}

} // verus!
