//! Interpreting an update check: the release notes are cleaned of asset
//! boilerplate before they reach the UI shell.

use vstd::prelude::*;

use crate::text::chars_to_string;
use crate::text::join_lines;
use crate::text::join_lines_exec;
use crate::text::split_lines;
use crate::text::split_lines_exec;
use crate::text::starts_with_chars;
use crate::text::starts_with_seq;
use crate::text::str_to_chars;
use crate::text::trim_chars;
use crate::text::trim_seq;

verus! {

/// Whether a release-notes line is kept: lines that only point at the release
/// assets are dropped.
pub open spec fn keep_line(l: Seq<char>) -> bool {
    !starts_with_seq(trim_seq(l), "See the assets below"@)
}

/// The kept lines, in order.
pub open spec fn kept_lines(ls: Seq<Seq<char>>) -> Seq<Seq<char>>
    decreases ls.len(),
{
    if ls.len() == 0 {
        Seq::empty()
    } else {
        let rest = kept_lines(ls.subrange(1, ls.len() as int));
        if keep_line(ls[0]) {
            seq![ls[0]] + rest
        } else {
            rest
        }
    }
}

/// The cleaned release notes: asset-pointer lines dropped, the rest joined
/// back together and trimmed; nothing at all if nothing is left.
pub open spec fn spec_filter_release_notes(body: Seq<char>) -> Option<Seq<char>> {
    let joined = trim_seq(join_lines(kept_lines(split_lines(body))));
    if joined.len() == 0 {
        None
    } else {
        Some(joined)
    }
}

/// Cleans release notes for display.
pub fn filter_release_notes(body: &str) -> (r: Option<String>)
    ensures
        r matches Some(s) ==> spec_filter_release_notes(body@) == Some(s@),
        r is None ==> spec_filter_release_notes(body@) is None,
{
    let chars = str_to_chars(body);
    let lines = split_lines_exec(&chars);
    let ghost lv = lines.deep_view();
    let pattern = str_to_chars("See the assets below");
    let mut kept: Vec<Vec<char>> = Vec::new();
    let mut i: usize = 0;
    proof {
        assert(lv.skip(0) =~= lv);
        assert(kept.deep_view() =~= Seq::<Seq<char>>::empty());
    }
    let n = lines.len();
    while i < n
        invariant
            i <= n,
            n == lines@.len(),
            lv == lines.deep_view(),
            lv.len() == n,
            pattern@ == "See the assets below"@,
            kept_lines(lv) == kept.deep_view() + kept_lines(lv.skip(i as int)),
        decreases n - i,
    {
        proof {
            assert(lv.skip(i as int)[0] == lv[i as int]);
            assert(lv[i as int] == lines@[i as int].deep_view());
            assert(lines@[i as int].deep_view() =~= lines@[i as int]@);
            assert(lv.skip(i as int).subrange(1, lv.skip(i as int).len() as int) =~= lv.skip(
                i as int + 1,
            ));
        }
        let trimmed = trim_chars(&lines[i]);
        if !starts_with_chars(&trimmed, &pattern) {
            let ghost pre = kept.deep_view();
            let line = crate::text::copy_range(&lines[i], 0, lines[i].len());
            proof {
                assert(line@ =~= lines@[i as int]@);
                assert(line.deep_view() =~= line@);
            }
            kept.push(line);
            proof {
                assert(kept.deep_view() =~= pre.push(lv[i as int]));
                assert(pre + (seq![lv[i as int]] + kept_lines(lv.skip(i as int + 1))) =~=
                    kept.deep_view() + kept_lines(lv.skip(i as int + 1)));
            }
        }
        i += 1;
    }
    proof {
        assert(lv.skip(n as int) =~= Seq::<Seq<char>>::empty());
        assert(kept.deep_view() + kept_lines(lv.skip(n as int)) =~= kept.deep_view());
        assert(kept_lines(split_lines(body@)) == kept.deep_view());
    }
    let joined = join_lines_exec(&kept);
    let trimmed = trim_chars(&joined);
    if trimmed.len() == 0 {
        None
    } else {
        Some(chars_to_string(&trimmed))
    }
}

/// What an update check reports to the UI shell.
#[derive(Debug, Clone, PartialEq)]
pub struct UpdateInfo {
    pub available: bool,
    pub version: Option<String>,
    pub body: Option<String>,
}

/// Mathematical model of an `UpdateInfo`.
pub struct UpdateInfoV {
    pub available: bool,
    pub version: Option<Seq<char>>,
    pub body: Option<Seq<char>>,
}

impl View for UpdateInfo {
    type V = UpdateInfoV;

    open spec fn view(&self) -> UpdateInfoV {
        UpdateInfoV {
            available: self.available,
            version: self.version.deep_view(),
            body: self.body.deep_view(),
        }
    }
}

/// What the UI shell is told for each answer of the update provider: no update
/// means nothing is available; an update is reported with its version and its
/// cleaned release notes.
pub open spec fn spec_interpret_update_check(
    found: Option<(Seq<char>, Option<Seq<char>>)>,
) -> UpdateInfoV {
    match found {
        None => UpdateInfoV { available: false, version: None, body: None },
        Some(u) => UpdateInfoV {
            available: true,
            version: Some(u.0),
            body: match u.1 {
                None => None,
                Some(notes) => spec_filter_release_notes(notes),
            },
        },
    }
}

/// Turns the update provider's answer into what the UI shell is told.
pub fn interpret_update_check(found: Option<(String, Option<String>)>) -> (u: UpdateInfo)
    ensures
        u@ == spec_interpret_update_check(found.deep_view()),
{
    match found {
        None => UpdateInfo { available: false, version: None, body: None },
        Some(vb) => {
            let body = match &vb.1 {
                None => None,
                Some(notes) => filter_release_notes(notes.as_str()),
            };
            UpdateInfo { available: true, version: Some(vb.0), body }
        },
    }
}

} // verus!
