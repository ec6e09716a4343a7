//! Queries over sysfs directory listings.
//!
//! A path is a sequence of components below the root. Reading the
//! filesystem happens elsewhere: these functions take what was read.
use vstd::prelude::*;
use vstd::string::*;
use crate::devnode::{find_char, index_of_from};
use crate::text::text_eq;

verus! {

/// Parses one trimmed line of a sysfs attribute file.
pub trait SysfsEntryParsable<T> {
    fn parse(line: &str) -> Option<T>;
}

/// The lines of a text: cut at each newline, the newlines dropped, with no
/// empty last line after a final newline.
pub open spec fn lines_of(s: Seq<char>) -> Seq<Seq<char>>
    decreases s.len(),
{
    if s.len() == 0 {
        Seq::empty()
    } else {
        match index_of_from(s, '\n', 0) {
            None => seq![s],
            Some(k) => if 0 <= k < s.len() {
                seq![s.subrange(0, k)] + lines_of(s.subrange(k + 1, s.len() as int))
            } else {
                Seq::empty()
            },
        }
    }
}

fn push_lines(s: &str, out: &mut Vec<String>)
    ensures
        final(out).deep_view() == old(out).deep_view() + lines_of(s@),
    decreases s@.len(),
{
    let n = s.unicode_len();
    if n == 0 {
        assert(old(out).deep_view() + lines_of(s@) =~= old(out).deep_view());
        return;
    }
    let k = find_char(s, '\n');
    if k == n {
        let ghost before = out.deep_view();
        out.push(s.to_owned());
        assert(out.deep_view() =~= before + lines_of(s@)) by {
            assert(out.deep_view()[before.len() as int] == out@[before.len() as int]@);
            assert forall|i: int| 0 <= i < before.len() implies #[trigger] out.deep_view()[i]
                == before[i] by {
                assert(out.deep_view()[i] == out@[i]@);
            }
        }
    } else {
        let ghost before = out.deep_view();
        out.push(s.substring_char(0, k).to_owned());
        assert(out.deep_view() =~= before + seq![s@.subrange(0, k as int)]) by {
            assert(out.deep_view()[before.len() as int] == out@[before.len() as int]@);
            assert forall|i: int| 0 <= i < before.len() implies #[trigger] out.deep_view()[i]
                == before[i] by {
                assert(out.deep_view()[i] == out@[i]@);
            }
        }
        push_lines(s.substring_char(k + 1, n), out);
        assert(before + seq![s@.subrange(0, k as int)] + lines_of(s@.subrange(k + 1, n as int))
            =~= before + lines_of(s@));
    }
}

/// The characters with the Unicode `White_Space` property, which is what
/// `char::is_whitespace` tests.
pub open spec fn is_white_space(c: char) -> bool {
    ('\u{9}' <= c && c <= '\u{d}') || c == ' ' || c == '\u{85}' || c == '\u{a0}' || c
        == '\u{1680}' || ('\u{2000}' <= c && c <= '\u{200a}') || c == '\u{2028}' || c
        == '\u{2029}' || c == '\u{202f}' || c == '\u{205f}' || c == '\u{3000}'
}

/// The text with its leading and trailing whitespace removed.
pub open spec fn trimmed_of(s: Seq<char>) -> Seq<char>
    decreases s.len(),
{
    if s.len() > 0 && is_white_space(s[0]) {
        trimmed_of(s.drop_first())
    } else if s.len() > 0 && is_white_space(s.last()) {
        trimmed_of(s.drop_last())
    } else {
        s
    }
}

/// Relies on str::trim, which removes the leading and trailing characters
/// for which `char::is_whitespace` holds.
#[verifier::external_body]
fn trim_text(s: &str) -> (r: &str)
    ensures
        r@ == trimmed_of(s@),
{
    s.trim()
}

/// Entries parsed from the lines of a sysfs attribute file: each line is
/// trimmed and offered to `T::parse`; lines it refuses are skipped.
pub struct SysfsEntryIter<T> {
    lines: Vec<String>,
    pos: usize,
    marker: core::marker::PhantomData<T>,
}

impl<T: SysfsEntryParsable<T>> SysfsEntryIter<T> {
    /// The lines still to be offered.
    pub closed spec fn remaining(&self) -> Seq<Seq<char>> {
        self.lines.deep_view().subrange(self.pos as int, self.lines.len() as int)
    }

    pub closed spec fn inv(&self) -> bool {
        self.pos <= self.lines.len()
    }

    /// Reads the lines of `s`.
    pub fn from_string(s: &str) -> (r: SysfsEntryIter<T>)
        ensures
            r.inv(),
            r.remaining() == lines_of(s@),
    {
        let mut lines: Vec<String> = Vec::new();
        push_lines(s, &mut lines);
        assert(Seq::<Seq<char>>::empty() + lines_of(s@) =~= lines_of(s@));
        let r = SysfsEntryIter { lines, pos: 0, marker: core::marker::PhantomData };
        assert(r.remaining() =~= lines_of(s@));
        r
    }

    /// The next entry that parses: the remaining lines are trimmed and
    /// offered to `T::parse` in order, up to and including the first it
    /// accepts, and those are consumed. `None`, with every line consumed,
    /// when it accepts none.
    pub fn next(&mut self) -> (r: Option<T>)
        requires
            old(self).inv(),
        ensures
            final(self).inv(),
            r is Some ==> final(self).remaining().len() < old(self).remaining().len()
                && final(self).remaining() == old(self).remaining().subrange(
                old(self).remaining().len() - final(self).remaining().len(),
                old(self).remaining().len() as int,
            ),
            r is None ==> final(self).remaining().len() == 0,
    {
        let ghost rem0 = self.remaining();
        let ghost p0 = self.pos as int;
        while self.pos < self.lines.len()
            invariant
                self.inv(),
                old(self).inv(),
                self.lines == old(self).lines,
                rem0 == old(self).remaining(),
                p0 == old(self).pos,
                p0 <= self.pos,
            decreases self.lines.len() - self.pos,
        {
            let ghost k = self.pos - p0;
            let line = trim_text(self.lines[self.pos].as_str());
            self.pos = self.pos + 1;
            match T::parse(line) {
                Some(e) => {
                    assert(self.remaining() =~= rem0.subrange(k + 1, rem0.len() as int));
                    return Some(e);
                },
                None => {},
            }
        }
        None
    }
}

/// Whether a directory listing holds an entry named `subdir`.
pub fn path_has_subdir(entries: &Vec<String>, subdir: &str) -> (r: bool)
    ensures
        r == entries.deep_view().contains(subdir@),
{
    let mut i: usize = 0;
    while i < entries.len()
        invariant
            i <= entries.len(),
            forall|j: int| 0 <= j < i ==> entries.deep_view()[j] != subdir@,
        decreases entries.len() - i,
    {
        if text_eq(entries[i].as_str(), subdir) {
            assert(entries.deep_view()[i as int] == subdir@);
            return true;
        }
        i = i + 1;
    }
    false
}

/// The longest prefix length `k <= top` whose listing holds `subdir`.
pub open spec fn deepest_with_subdir(
    listings: Seq<Seq<Seq<char>>>,
    subdir: Seq<char>,
    top: int,
) -> Option<int>
    decreases top + 1,
{
    if top < 0 {
        None
    } else if listings[top].contains(subdir) {
        Some(top)
    } else {
        deepest_with_subdir(listings, subdir, top - 1)
    }
}

/// Climbs from `path` towards the root and returns the first directory
/// (the path itself included) that holds an entry named `subdir`.
/// `listings[k]` is the listing of the first `k` components of `path`.
pub fn walk_path_has_subdir(path: &Vec<String>, listings: &Vec<Vec<String>>, subdir: &str) -> (r:
    Option<Vec<String>>)
    requires
        listings.len() == path.len() + 1,
    ensures
        match deepest_with_subdir(listings.deep_view(), subdir@, path.len() as int) {
            Some(k) => r is Some && r->0.deep_view() == path.deep_view().subrange(0, k),
            None => r is None,
        },
{
    let ghost lv = listings.deep_view();
    let mut k: usize = path.len() + 1;
    while k > 0
        invariant
            k <= path.len() + 1,
            listings.len() == path.len() + 1,
            lv == listings.deep_view(),
            deepest_with_subdir(lv, subdir@, path.len() as int)
                == deepest_with_subdir(lv, subdir@, k - 1),
        decreases k,
    {
        let idx = k - 1;
        assert(listings[idx as int].deep_view() == lv[idx as int]);
        if path_has_subdir(&listings[idx], subdir) {
            let mut prefix: Vec<String> = Vec::new();
            let mut j: usize = 0;
            while j < idx
                invariant
                    j <= idx,
                    idx <= path.len(),
                    prefix@.len() == j,
                    prefix.deep_view() == path.deep_view().subrange(0, j as int),
                decreases idx - j,
            {
                let c = path[j].clone();
                let ghost before = prefix.deep_view();
                prefix.push(c);
                assert forall|i: int| 0 <= i < j + 1 implies #[trigger] prefix.deep_view()[i]
                    == path.deep_view()[i] by {
                    assert(prefix.deep_view()[i] == prefix@[i]@);
                    assert(path.deep_view()[i] == path@[i]@);
                    if i < j {
                        assert(before[i] == path.deep_view()[i]);
                    }
                }
                assert(prefix.deep_view() =~= path.deep_view().subrange(0, j + 1));
                j = j + 1;
            }
            return Some(prefix);
        }
        k = idx;
    }
    None
}

} // verus!
