use vstd::prelude::*;

verus! {

/// The decimal text of a natural number, without leading zeros.
pub open spec fn decimal(n: nat) -> Seq<char>
    decreases n,
{
    if n < 10 {
        seq![digit_char(n)]
    } else {
        decimal(n / 10).push(digit_char(n % 10))
    }
}

pub open spec fn digit_char(d: nat) -> char {
    if d < 10 {
        (('0' as u8) + (d as u8)) as char
    } else {
        '0'
    }
}

/// A semantic version as plain values: the numeric triple and the text of
/// the pre-release and build-metadata parts (empty when absent).
#[derive(Clone, Debug)]
pub struct Version {
    pub major: u64,
    pub minor: u64,
    pub patch: u64,
    pub pre: String,
    pub build: String,
}

/// The mathematical value of a version.
pub struct VersionModel {
    pub major: nat,
    pub minor: nat,
    pub patch: nat,
    pub pre: Seq<char>,
    pub build: Seq<char>,
}

impl View for Version {
    type V = VersionModel;

    open spec fn view(&self) -> VersionModel {
        VersionModel {
            major: self.major as nat,
            minor: self.minor as nat,
            patch: self.patch as nat,
            pre: self.pre@,
            build: self.build@,
        }
    }
}

/// The canonical text of a version: `major.minor.patch`, then `-pre` and
/// `+build` when those parts are present.
pub open spec fn version_text_of(v: VersionModel) -> Seq<char> {
    decimal(v.major) + seq!['.'] + decimal(v.minor) + seq!['.'] + decimal(v.patch) + (if v.pre.len()
        == 0 {
        Seq::<char>::empty()
    } else {
        seq!['-'] + v.pre
    }) + (if v.build.len() == 0 {
        Seq::<char>::empty()
    } else {
        seq!['+'] + v.build
    })
}

/// What `semver::Version::parse` yields for a text: the five parts, or
/// `None` where the text is not a valid version.
pub uninterp spec fn semver_parse(text: Seq<char>) -> Option<(nat, nat, nat, Seq<char>, Seq<char>)>;

pub open spec fn parsed_model(p: (nat, nat, nat, Seq<char>, Seq<char>)) -> VersionModel {
    VersionModel { major: p.0, minor: p.1, patch: p.2, pre: p.3, build: p.4 }
}

/// Relies on `semver::Version::parse`, whose result depends on the text
/// alone, and on the `as_str` accessors of its pre-release and build parts.
#[verifier::external_body]
fn semver_version_parse(text: &str) -> (r: Option<Version>)
    ensures
        match semver_parse(text@) {
            Some(p) => r.is_some() && r.unwrap()@ == parsed_model(p),
            None => r.is_none(),
        },
{
    match semver::Version::parse(text) {
        Ok(v) => Some(
            Version {
                major: v.major,
                minor: v.minor,
                patch: v.patch,
                pre: v.pre.as_str().to_string(),
                build: v.build.as_str().to_string(),
            },
        ),
        Err(_) => None,
    }
}

impl Version {
    /// A version with the given numeric parts and no pre-release or build part.
    pub fn new(major: u64, minor: u64, patch: u64) -> (r: Version)
        ensures
            r@ == (VersionModel {
                major: major as nat,
                minor: minor as nat,
                patch: patch as nat,
                pre: Seq::empty(),
                build: Seq::empty(),
            }),
    {
        Version { major, minor, patch, pre: String::new(), build: String::new() }
    }

    /// Parses a version text; `None` where the text is not a semantic version.
    pub fn parse(text: &str) -> (r: Option<Version>)
        ensures
            match semver_parse(text@) {
                Some(p) => r.is_some() && r.unwrap()@ == parsed_model(p),
                None => r.is_none(),
            },
    {
        semver_version_parse(text)
    }

    /// A copy of the version.
    pub fn copy(&self) -> (r: Version)
        ensures
            r@ == self@,
    {
        Version {
            major: self.major,
            minor: self.minor,
            patch: self.patch,
            pre: self.pre.clone(),
            build: self.build.clone(),
        }
    }

    /// Whether two versions are identical in every part, build metadata included.
    pub fn same_as(&self, other: &Version) -> (r: bool)
        ensures
            r == (self@ == other@),
    {
        self.major == other.major && self.minor == other.minor && self.patch == other.patch
            && self.pre == other.pre && self.build == other.build
    }

    /// The canonical text of the version.
    pub fn text(&self) -> (r: String)
        ensures
            r@ == version_text_of(self@),
    {
        proof {
            reveal_strlit(".");
            reveal_strlit("-");
            reveal_strlit("+");
        }
        let mut r = decimal_text(self.major);
        r.append(".");
        let m = decimal_text(self.minor);
        r.append(m.as_str());
        r.append(".");
        let p = decimal_text(self.patch);
        r.append(p.as_str());
        let ghost core = r@;
        let ghost pre_part = if self.pre@.len() == 0 {
            Seq::<char>::empty()
        } else {
            seq!['-'] + self.pre@
        };
        let ghost build_part = if self.build@.len() == 0 {
            Seq::<char>::empty()
        } else {
            seq!['+'] + self.build@
        };
        if !self.pre.as_str().is_empty() {
            r.append("-");
            r.append(self.pre.as_str());
        }
        assert(r@ =~= core + pre_part);
        if !self.build.as_str().is_empty() {
            r.append("+");
            r.append(self.build.as_str());
        }
        assert(r@ =~= core + pre_part + build_part);
        assert(core =~= decimal(self.major as nat) + seq!['.'] + decimal(self.minor as nat) + seq!['.']
            + decimal(self.patch as nat));
        r
    }
}

/// The decimal text of an unsigned integer.
pub fn decimal_text(n: u64) -> (r: String)
    ensures
        r@ == decimal(n as nat),
    decreases n,
{
    let d: u64 = n % 10;
    let c = digit(d);
    if n < 10 {
        let mut r = String::new();
        push_char(&mut r, c);
        r
    } else {
        let mut r = decimal_text(n / 10);
        push_char(&mut r, c);
        r
    }
}

fn digit(d: u64) -> (c: char)
    requires
        d < 10,
    ensures
        c == digit_char(d as nat),
{
    let b: u8 = 48u8 + (d as u8);
    b as char
}

/// Relies on `String::push`, which appends one character.
#[verifier::external_body]
fn push_char(s: &mut String, c: char)
    ensures
        final(s)@ == old(s)@.push(c),
{
    s.push(c)
}

} // verus!
