//! Epochs: the coarse version buckets under which a package's outputs are
//! grouped, their directory names, and the collection of stale epoch
//! directories.
use crate::plan::texts;
use crate::version::{decimal, decimal_text, Version};
use vstd::prelude::*;

verus! {

/// An epoch: the major version when it is not zero, else the minor version.
#[derive(Clone, Copy, Debug, PartialEq, Eq, Structural)]
pub enum Epoch {
    Major(u64),
    Minor(u64),
}

/// The directory name of an epoch: `v{major}` or `v0_{minor}`.
pub open spec fn epoch_name_of(e: Epoch) -> Seq<char> {
    match e {
        Epoch::Major(n) => seq!['v'] + decimal(n as nat),
        Epoch::Minor(n) => seq!['v', '0', '_'] + decimal(n as nat),
    }
}

pub open spec fn is_digit(c: char) -> bool {
    '0' <= c && c <= '9'
}

/// A decimal numeral without superfluous leading zeros.
pub open spec fn is_numeral(s: Seq<char>) -> bool {
    s.len() > 0 && (forall|i: int| 0 <= i < s.len() ==> is_digit(#[trigger] s[i])) && (s.len() == 1 || s[0]
        != '0')
}

/// The value of a string of digits.
pub open spec fn numeral_value(s: Seq<char>) -> nat
    decreases s.len(),
{
    if s.len() == 0 {
        0
    } else {
        numeral_value(s.drop_last()) * 10 + ((s.last() as u32 - '0' as u32) as nat)
    }
}

/// The number that a numeral text stands for, when it is a numeral whose
/// value fits in a `u64`.
pub open spec fn numeral_u64(s: Seq<char>) -> Option<u64> {
    if is_numeral(s) && numeral_value(s) <= u64::MAX {
        Some(numeral_value(s) as u64)
    } else {
        None
    }
}

/// The epoch that a directory name identifies: `v` then a non-zero numeral
/// is a major epoch; `v0_` then a numeral is a minor one. Other names
/// identify none.
pub open spec fn epoch_of_name(s: Seq<char>) -> Option<Epoch> {
    if s.len() >= 1 && s[0] == 'v' {
        let rest = s.drop_first();
        match numeral_u64(rest) {
            Some(n) => if n >= 1 {
                Some(Epoch::Major(n))
            } else {
                None
            },
            None => if rest.len() >= 2 && rest[0] == '0' && rest[1] == '_' {
                match numeral_u64(rest.skip(2)) {
                    Some(m) => Some(Epoch::Minor(m)),
                    None => None,
                }
            } else {
                None
            },
        }
    } else {
        None
    }
}

/// Relies on `str::chars`: the characters of a text, in order.
#[verifier::external_body]
fn text_chars(s: &str) -> (r: Vec<char>)
    ensures
        r@ == s@,
{
    s.chars().collect()
}

proof fn lemma_numeral_grows(s: Seq<char>, k: int)
    requires
        0 <= k <= s.len(),
        forall|i: int| 0 <= i < s.len() ==> is_digit(#[trigger] s[i]),
    ensures
        numeral_value(s.take(k)) <= numeral_value(s),
    decreases s.len() - k,
{
    if k < s.len() {
        lemma_numeral_grows(s, k + 1);
        assert(s.take(k + 1).drop_last() =~= s.take(k));
        assert(s.take(k + 1).last() == s[k]);
        assert(is_digit(s[k]));
    } else {
        assert(s.take(k) =~= s);
    }
}

/// Reads the numeral that fills `cs` from `start` on.
fn parse_numeral(cs: &Vec<char>, start: usize) -> (r: Option<u64>)
    requires
        start <= cs.len(),
    ensures
        r == numeral_u64(cs@.skip(start as int)),
{
    let ghost s = cs@.skip(start as int);
    if start == cs.len() {
        return None;
    }
    if cs[start] == '0' && cs.len() - start > 1 {
        assert(!is_numeral(s));
        return None;
    }
    let mut acc: u64 = 0;
    let mut i: usize = start;
    while i < cs.len()
        invariant
            start <= i <= cs.len(),
            s == cs@.skip(start as int),
            forall|k: int| 0 <= k < i - start ==> is_digit(#[trigger] s[k]),
            acc as nat == numeral_value(s.take(i - start)),
        decreases cs.len() - i,
    {
        let c = cs[i];
        if !('0' <= c && c <= '9') {
            assert(!is_digit(s[i - start]));
            return None;
        }
        let d: u64 = ((c as u32) - ('0' as u32)) as u64;
        assert(s.take(i - start + 1).drop_last() =~= s.take(i - start));
        if acc > (u64::MAX - d) / 10 {
            proof {
                assert(numeral_value(s.take(i - start + 1)) > u64::MAX);
                if forall|k: int| 0 <= k < s.len() ==> is_digit(#[trigger] s[k]) {
                    lemma_numeral_grows(s, i - start + 1);
                }
            }
            return None;
        }
        acc = acc * 10 + d;
        i += 1;
    }
    assert(s.take(i - start) =~= s);
    Some(acc)
}

impl Epoch {
    /// The epoch that a directory name identifies, if any.
    pub fn parse(name: &str) -> (r: Option<Epoch>)
        ensures
            r == epoch_of_name(name@),
    {
        let cs = text_chars(name);
        if cs.len() == 0 || cs[0] != 'v' {
            return None;
        }
        assert(cs@.skip(1) =~= cs@.drop_first());
        match parse_numeral(&cs, 1) {
            Some(n) => if n >= 1 {
                Some(Epoch::Major(n))
            } else {
                None
            },
            None => {
                if cs.len() >= 3 && cs[1] == '0' && cs[2] == '_' {
                    assert(cs@.skip(3) =~= cs@.drop_first().skip(2));
                    match parse_numeral(&cs, 3) {
                        Some(m) => Some(Epoch::Minor(m)),
                        None => None,
                    }
                } else {
                    None
                }
            },
        }
    }

    /// The epoch of a version: its major version when not zero, else its
    /// minor version.
    pub fn from_version(v: &Version) -> (r: Epoch)
        ensures
            r == (if v.major != 0 {
                Epoch::Major(v.major)
            } else {
                Epoch::Minor(v.minor)
            }),
    {
        if v.major != 0 {
            Epoch::Major(v.major)
        } else {
            Epoch::Minor(v.minor)
        }
    }

    /// The directory name of the epoch.
    pub fn name(&self) -> (r: String)
        ensures
            r@ == epoch_name_of(*self),
    {
        proof {
            reveal_strlit("v");
            reveal_strlit("v0_");
        }
        match self {
            Epoch::Major(n) => {
                let d = decimal_text(*n);
                let mut r = String::from_str("v");
                r.append(d.as_str());
                r
            },
            Epoch::Minor(n) => {
                let d = decimal_text(*n);
                let mut r = String::from_str("v0_");
                r.append(d.as_str());
                r
            },
        }
    }
}

/// Whether a directory name is the name of an epoch.
pub fn is_epoch_name(name: &str) -> (r: bool)
    ensures
        r == epoch_of_name(name@).is_some(),
{
    Epoch::parse(name).is_some()
}

/// A directory found under a package's output directory.
#[derive(Clone, Debug)]
pub struct OutputEntry {
    /// The entry's full path, as text.
    pub path: String,
    /// The entry's own name.
    pub name: String,
    pub is_dir: bool,
}

/// Whether an entry is a stale epoch directory: a directory, named as an
/// epoch, whose path is none of the outputs produced by this run.
pub open spec fn is_stale_epoch(e: OutputEntry, produced: Seq<Seq<char>>) -> bool {
    e.is_dir && epoch_of_name(e.name@).is_some() && !produced.contains(e.path@)
}

/// The paths of the stale epoch directories among the first `n` entries,
/// in order.
pub open spec fn stale_epochs(entries: Seq<OutputEntry>, produced: Seq<Seq<char>>, n: nat) -> Seq<Seq<char>>
    decreases n,
{
    if n == 0 {
        Seq::empty()
    } else {
        let rest = stale_epochs(entries, produced, (n - 1) as nat);
        if is_stale_epoch(entries[n - 1], produced) {
            rest.push(entries[n - 1].path@)
        } else {
            rest
        }
    }
}

/// The epoch directories to delete: those of the entries that are
/// directories, are named as epochs, and hold none of the outputs produced
/// by this run. Entries named otherwise are never chosen.
pub fn epoch_dirs_to_delete(entries: &Vec<OutputEntry>, produced: &Vec<String>) -> (r: Vec<String>)
    ensures
        texts(r@) == stale_epochs(entries@, texts(produced@), entries.len() as nat),
{
    let mut r: Vec<String> = Vec::new();
    let mut i: usize = 0;
    while i < entries.len()
        invariant
            i <= entries.len(),
            texts(r@) == stale_epochs(entries@, texts(produced@), i as nat),
        decreases entries.len() - i,
    {
        let e = &entries[i];
        if e.is_dir && is_epoch_name(e.name.as_str()) && !crate::plan::contains_text(produced, &e.path) {
            let ghost before = r@;
            r.push(e.path.clone());
            proof {
                assert(texts(r@) =~= texts(before).push(e.path@));
            }
        }
        i += 1;
    }
    r
}

/// Every path chosen for deletion is that of a directory named as an epoch
/// and produced by no output of the run; every such entry is chosen.
pub proof fn lemma_stale_epochs_exact(entries: Seq<OutputEntry>, produced: Seq<Seq<char>>, n: nat)
    requires
        n <= entries.len(),
    ensures
        forall|p: Seq<char>|
            stale_epochs(entries, produced, n).contains(p) <==> exists|i: int|
                0 <= i < n && #[trigger] entries[i].path@ == p && is_stale_epoch(entries[i], produced),
    decreases n,
{
    if n > 0 {
        lemma_stale_epochs_exact(entries, produced, (n - 1) as nat);
        let rest = stale_epochs(entries, produced, (n - 1) as nat);
        let m = (n - 1) as int;
        assert forall|p: Seq<char>|
            stale_epochs(entries, produced, n).contains(p) <==> exists|i: int|
                0 <= i < n && #[trigger] entries[i].path@ == p && is_stale_epoch(entries[i], produced) by {
            if is_stale_epoch(entries[m], produced) {
                let s = rest.push(entries[m].path@);
                if rest.contains(p) {
                    let k = choose|k: int| 0 <= k < rest.len() && rest[k] == p;
                    assert(s[k] == p);
                }
                if p == entries[m].path@ {
                    assert(s[rest.len() as int] == p);
                }
                if s.contains(p) && p != entries[m].path@ {
                    let k = choose|k: int| 0 <= k < s.len() && s[k] == p;
                    assert(rest[k] == p);
                }
            }
        }
    }
}

} // verus!
