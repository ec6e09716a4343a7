//! Resolution of a block device's node from its `major:minor` numbers.
use vstd::prelude::*;
use vstd::string::*;
use crate::text::opt_view;

verus! {

/// The major number that `nix::sys::stat::major` takes from a Linux `dev_t`.
pub open spec fn major_of(dev: u64) -> u64 {
    ((dev >> 32u64) & 0xffff_f000u64) | ((dev >> 8u64) & 0x0000_0fffu64)
}

/// The minor number that `nix::sys::stat::minor` takes from a Linux `dev_t`.
pub open spec fn minor_of(dev: u64) -> u64 {
    ((dev >> 12u64) & 0xffff_ff00u64) | (dev & 0x0000_00ffu64)
}

/// Relies on nix::sys::stat::major, which extracts the major number of a
/// Linux device id with the shifts and masks of `major_of`.
#[verifier::external_body]
fn dev_major(dev: u64) -> (r: u64)
    ensures
        r == major_of(dev),
{
    nix::sys::stat::major(dev)
}

/// Relies on nix::sys::stat::minor, which extracts the minor number of a
/// Linux device id with the shifts and masks of `minor_of`.
#[verifier::external_body]
fn dev_minor(dev: u64) -> (r: u64)
    ensures
        r == minor_of(dev),
{
    nix::sys::stat::minor(dev)
}

/// Relies on libc::S_IFBLK, the block-device file type bits (0o60000 on Linux).
#[verifier::external_body]
fn mode_block_bits() -> (r: u32)
    ensures
        r == 0o60000u32,
{
    libc::S_IFBLK
}

/// Relies on libc::S_IFMT, the mask of the file type bits (0o170000 on Linux).
#[verifier::external_body]
fn mode_type_mask() -> (r: u32)
    ensures
        r == 0o170000u32,
{
    libc::S_IFMT
}

/// Relies on libc::S_IFCHR, the character-device file type bits (0o20000 on Linux).
#[verifier::external_body]
fn mode_char_bits() -> (r: u32)
    ensures
        r == 0o20000u32,
{
    libc::S_IFCHR
}

/// What a `stat` of a filesystem node reports that node matching needs.
#[derive(PartialEq, Eq, Structural, Clone, Copy, Debug)]
pub struct NodeMeta {
    pub mode: u32,
    pub rdev: u64,
}

/// A node of the device directory that is not a directory, with its
/// metadata (`None` when it could not be read).
pub struct NodeCandidate {
    pub path: String,
    pub meta: Option<NodeMeta>,
}

/// A node is the device `major:minor` when its file type is block device
/// or character device and its device id has those numbers.
pub open spec fn node_matches(meta: Option<NodeMeta>, major: u64, minor: u64) -> bool {
    match meta {
        Some(m) => ((m.mode & 0o170000u32) == 0o60000u32 || (m.mode & 0o170000u32) == 0o20000u32)
            && major_of(m.rdev) == major && minor_of(m.rdev) == minor,
        None => false,
    }
}

/// Whether a node with metadata `meta` is the device `major:minor`.
pub fn file_is_chardev(meta: &Option<NodeMeta>, major: u64, minor: u64) -> (r: bool)
    ensures
        r == node_matches(*meta, major, minor),
{
    match meta {
        Some(m) => {
            let kind = m.mode & mode_type_mask();
            if !(kind == mode_block_bits() || kind == mode_char_bits()) {
                return false;
            }
            if dev_major(m.rdev) != major {
                return false;
            }
            if dev_minor(m.rdev) != minor {
                return false;
            }
            true
        },
        None => false,
    }
}

/// Whether every character is a decimal digit.
pub open spec fn all_digits(s: Seq<char>) -> bool {
    forall|i: int| 0 <= i < s.len() ==> '0' <= #[trigger] s[i] <= '9'
}

/// The value of a string of decimal digits.
pub open spec fn digits_value(s: Seq<char>) -> nat
    decreases s.len(),
{
    if s.len() == 0 {
        0
    } else {
        digits_value(s.drop_last()) * 10 + ((s.last() as nat) - ('0' as nat)) as nat
    }
}

/// A decimal number: an optional `+` then the digits of `digits_of`.
pub open spec fn decimal_of(s: Seq<char>) -> Option<u64> {
    if s.len() > 0 && s[0] == '+' {
        digits_of(s.subrange(1, s.len() as int))
    } else {
        digits_of(s)
    }
}

/// One or more digits whose value fits in a `u64`.
pub open spec fn digits_of(s: Seq<char>) -> Option<u64> {
    if s.len() > 0 && all_digits(s) && digits_value(s) <= u64::MAX {
        Some(digits_value(s) as u64)
    } else {
        None
    }
}

proof fn lemma_digits_value_grows(s: Seq<char>, i: int, j: int)
    requires
        0 <= i <= j <= s.len(),
        all_digits(s),
    ensures
        digits_value(s.subrange(0, i)) <= digits_value(s.subrange(0, j)),
    decreases j - i,
{
    if i < j {
        lemma_digits_value_grows(s, i, j - 1);
        assert(s.subrange(0, j).drop_last() =~= s.subrange(0, j - 1));
    }
}

/// Parses a decimal `u64`, with an optional leading `+`.
pub fn parse_decimal(s: &str) -> (r: Option<u64>)
    ensures
        r == decimal_of(s@),
{
    let n = s.unicode_len();
    if n > 0 && s.get_char(0) == '+' {
        parse_digits(s.substring_char(1, n))
    } else {
        parse_digits(s)
    }
}

/// Parses a string of decimal digits into a `u64`.
pub fn parse_digits(s: &str) -> (r: Option<u64>)
    ensures
        r == digits_of(s@),
{
    let n = s.unicode_len();
    if n == 0 {
        return None;
    }
    let mut v: u64 = 0;
    let mut i: usize = 0;
    while i < n
        invariant
            n == s@.len(),
            i <= n,
            all_digits(s@.subrange(0, i as int)),
            v as nat == digits_value(s@.subrange(0, i as int)),
        decreases n - i,
    {
        let c = s.get_char(i);
        assert(s@.subrange(0, i + 1).drop_last() =~= s@.subrange(0, i as int));
        if c < '0' || c > '9' {
            assert(!all_digits(s@));
            return None;
        }
        let d: u64 = (c as u32 - '0' as u32) as u64;
        let next = v.checked_mul(10);
        match next {
            None => {
                proof {
                    if all_digits(s@) {
                        lemma_digits_value_grows(s@, i + 1, n as int);
                        assert(s@.subrange(0, n as int) =~= s@);
                    }
                }
                return None;
            },
            Some(t) => {
                match t.checked_add(d) {
                    None => {
                        proof {
                            if all_digits(s@) {
                                lemma_digits_value_grows(s@, i + 1, n as int);
                                assert(s@.subrange(0, n as int) =~= s@);
                            }
                        }
                        return None;
                    },
                    Some(w) => {
                        v = w;
                    },
                }
            },
        }
        assert(all_digits(s@.subrange(0, i + 1))) by {
            assert forall|k: int| 0 <= k < i + 1 implies '0' <= #[trigger] s@.subrange(
                0,
                i + 1,
            )[k] <= '9' by {
                if k < i {
                    assert(s@.subrange(0, i + 1)[k] == s@.subrange(0, i as int)[k]);
                }
            }
        }
        i = i + 1;
    }
    assert(s@.subrange(0, n as int) =~= s@);
    Some(v)
}

/// The first index at or after `i` that holds `c`.
pub open spec fn index_of_from(s: Seq<char>, c: char, i: int) -> Option<int>
    decreases s.len() - i,
{
    if i < 0 || i >= s.len() {
        None
    } else if s[i] == c {
        Some(i)
    } else {
        index_of_from(s, c, i + 1)
    }
}

/// The device numbers in a `major:minor` line: the text is cut at its
/// first colon and both sides must be decimal numbers.
pub open spec fn dev_numbers_of(s: Seq<char>) -> Option<(u64, u64)> {
    match index_of_from(s, ':', 0) {
        Some(k) => match (decimal_of(s.subrange(0, k)), decimal_of(s.subrange(k + 1, s.len() as int))) {
            (Some(a), Some(b)) => Some((a, b)),
            _ => None,
        },
        None => None,
    }
}

/// Why no device node was found.
#[derive(PartialEq, Eq, Structural, Clone, Copy, Debug)]
pub enum NodeError {
    /// The device has no readable `dev` line.
    MissingDevInfo,
    /// The `dev` line has no colon.
    NoSeparator,
    /// A side of the `dev` line is not a decimal number.
    BadNumber,
    /// No node of the device directory carries the device numbers.
    NotFound,
}

/// The index of the first `c` in `s`, or the length of `s` when none.
pub fn find_char(s: &str, c: char) -> (k: usize)
    ensures
        k <= s@.len(),
        index_of_from(s@, c, 0) == if k == s@.len() {
            None
        } else {
            Some(k as int)
        },
{
    let n = s.unicode_len();
    let mut k: usize = 0;
    while k < n
        invariant
            n == s@.len(),
            k <= n,
            index_of_from(s@, c, 0) == index_of_from(s@, c, k as int),
        decreases n - k,
    {
        if s.get_char(k) == c {
            return k;
        }
        k = k + 1;
    }
    k
}

/// Splits and parses a `major:minor` line.
pub fn parse_dev_numbers(line: &str) -> (r: Result<(u64, u64), NodeError>)
    ensures
        index_of_from(line@, ':', 0) is None <==> r == Err::<(u64, u64), NodeError>(
            NodeError::NoSeparator,
        ),
        r is Err ==> r->Err_0 == NodeError::NoSeparator || r->Err_0 == NodeError::BadNumber,
        r is Ok <==> dev_numbers_of(line@) is Some,
        r is Ok ==> r->Ok_0 == dev_numbers_of(line@)->0,
{
    let n = line.unicode_len();
    let k = find_char(line, ':');
    if k == n {
        return Err(NodeError::NoSeparator);
    }
    let major = parse_decimal(line.substring_char(0, k));
    let minor = parse_decimal(line.substring_char(k + 1, n));
    match (major, minor) {
        (Some(a), Some(b)) => Ok((a, b)),
        _ => Err(NodeError::BadNumber),
    }
}

/// `/dev/<name>`, the node a device conventionally has.
pub open spec fn default_node_path(name: Seq<char>) -> Seq<char> {
    "/dev/"@ + name
}

/// Builds `/dev/<name>`.
pub fn default_node(name: &str) -> (r: String)
    ensures
        r@ == default_node_path(name@),
{
    let base = String::from_str("/dev/");
    base.concat(name)
}

/// The first candidate that is the device `major:minor`.
pub open spec fn first_match_from(cands: Seq<(Seq<char>, Option<NodeMeta>)>, major: u64, minor: u64, i: int) -> Option<Seq<char>>
    decreases cands.len() - i,
{
    if i < 0 || i >= cands.len() {
        None
    } else if node_matches(cands[i].1, major, minor) {
        Some(cands[i].0)
    } else {
        first_match_from(cands, major, minor, i + 1)
    }
}

/// The view of the candidate list: path and metadata of each.
pub open spec fn candidates_view(c: Seq<NodeCandidate>) -> Seq<(Seq<char>, Option<NodeMeta>)> {
    c.map_values(|x: NodeCandidate| (x.path@, x.meta))
}

/// The node of a device, from the device's `dev` line (`None` when it
/// could not be read), the metadata of `/dev/<name>`, and the other nodes
/// of the device directory in listing order. The conventional node wins;
/// otherwise the first candidate that carries the numbers.
pub open spec fn device_node_of(
    name: Seq<char>,
    dev_line: Option<Seq<char>>,
    default_meta: Option<NodeMeta>,
    cands: Seq<(Seq<char>, Option<NodeMeta>)>,
) -> Result<Seq<char>, NodeError> {
    match dev_line {
        None => Err(NodeError::MissingDevInfo),
        Some(line) => match index_of_from(line, ':', 0) {
            None => Err(NodeError::NoSeparator),
            Some(_) => match dev_numbers_of(line) {
                None => Err(NodeError::BadNumber),
                Some((major, minor)) => if node_matches(default_meta, major, minor) {
                    Ok(default_node_path(name))
                } else {
                    match first_match_from(cands, major, minor, 0) {
                        Some(p) => Ok(p),
                        None => Err(NodeError::NotFound),
                    }
                },
            },
        },
    }
}

/// Resolves the node of block device `name`; see `device_node_of`.
pub fn block_device_node(
    name: &str,
    dev_line: &Option<String>,
    default_meta: &Option<NodeMeta>,
    candidates: &Vec<NodeCandidate>,
) -> (r: Result<String, NodeError>)
    ensures
        match device_node_of(
            name@,
            opt_view(*dev_line),
            *default_meta,
            candidates_view(candidates@),
        ) {
            Ok(p) => r is Ok && r->Ok_0@ == p,
            Err(e) => r == Err::<String, NodeError>(e),
        },
{
    let line = match dev_line {
        None => {
            return Err(NodeError::MissingDevInfo);
        },
        Some(l) => l,
    };
    let (major, minor) = match parse_dev_numbers(line.as_str()) {
        Ok(p) => p,
        Err(e) => {
            return Err(e);
        },
    };
    if file_is_chardev(default_meta, major, minor) {
        return Ok(default_node(name));
    }
    let ghost cv = candidates_view(candidates@);
    let mut i: usize = 0;
    while i < candidates.len()
        invariant
            i <= candidates.len(),
            cv == candidates_view(candidates@),
            first_match_from(cv, major, minor, 0) == first_match_from(cv, major, minor, i as int),
            opt_view(*dev_line) == Some(line@),
            index_of_from(line@, ':', 0) is Some,
            dev_numbers_of(line@) == Some((major, minor)),
            !node_matches(*default_meta, major, minor),
        decreases candidates.len() - i,
    {
        assert(cv[i as int] == (candidates@[i as int].path@, candidates@[i as int].meta));
        if file_is_chardev(&candidates[i].meta, major, minor) {
            assert(first_match_from(cv, major, minor, i as int) == Some(cv[i as int].0));
            let p = candidates[i].path.clone();
            return Ok(p);
        }
        i = i + 1;
    }
    Err(NodeError::NotFound)
}

} // verus!
