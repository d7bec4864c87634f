//! Semantic versions and version constraints, modeled as plain values,
//! together with verified rendering into manifest text.

use vstd::prelude::*;

verus! {

/// One package version: `major.minor.patch`, with the pre-release and
/// build-metadata components carried as text (empty when absent).
#[derive(Clone, Debug)]
pub struct Version {
    pub major: u64,
    pub minor: u64,
    pub patch: u64,
    pub pre: String,
    pub build: String,
}

/// Whether two versions agree in every component.
pub open spec fn version_eq(a: Version, b: Version) -> bool {
    a.major == b.major && a.minor == b.minor && a.patch == b.patch && a.pre@ == b.pre@ && a.build@
        == b.build@
}

impl PartialEq for Version {
    fn eq(&self, o: &Version) -> (r: bool) {
        self.major == o.major && self.minor == o.minor && self.patch == o.patch && self.pre
            == o.pre && self.build == o.build
    }
}

impl Eq for Version {

}

impl vstd::std_specs::cmp::PartialEqSpecImpl for Version {
    open spec fn obeys_eq_spec() -> bool {
        true
    }

    open spec fn eq_spec(&self, o: &Version) -> bool {
        version_eq(*self, *o)
    }
}

impl Version {
    /// A copy of the version, equal to it.
    pub fn duplicate(&self) -> (r: Version)
        ensures
            r == *self,
    {
        Version {
            major: self.major,
            minor: self.minor,
            patch: self.patch,
            pre: self.pre.clone(),
            build: self.build.clone(),
        }
    }
}

/// A version constraint as it stands in the pseudo-project manifest.
#[derive(Clone, Debug)]
pub enum VersionReq {
    /// Pinned to one exact version (`=1.2.3`).
    Exact(Version),
    /// Open constraint compatible with a version (`1.2.3`).
    Compatible(Version),
    /// No version given; the resolver picks.
    Unversioned,
}

impl VersionReq {
    /// A copy of the constraint, equal to it.
    pub fn duplicate(&self) -> (r: VersionReq)
        ensures
            r == *self,
    {
        match self {
            VersionReq::Exact(v) => VersionReq::Exact(v.duplicate()),
            VersionReq::Compatible(v) => VersionReq::Compatible(v.duplicate()),
            VersionReq::Unversioned => VersionReq::Unversioned,
        }
    }
}

/// The character for one decimal digit.
pub open spec fn digit_char(d: int) -> char {
    if d == 0 {
        '0'
    } else if d == 1 {
        '1'
    } else if d == 2 {
        '2'
    } else if d == 3 {
        '3'
    } else if d == 4 {
        '4'
    } else if d == 5 {
        '5'
    } else if d == 6 {
        '6'
    } else if d == 7 {
        '7'
    } else if d == 8 {
        '8'
    } else {
        '9'
    }
}

/// The decimal rendering of a natural number, most significant digit first.
pub open spec fn dec_rep(n: nat) -> Seq<char>
    decreases n,
{
    if n < 10 {
        seq![digit_char(n as int)]
    } else {
        dec_rep(n / 10).push(digit_char((n % 10) as int))
    }
}

/// The rendering of a version: `major.minor.patch`, with the pre-release
/// after a hyphen and the build metadata after a plus sign, each only when
/// present.
pub open spec fn version_rep(v: Version) -> Seq<char> {
    dec_rep(v.major as nat) + seq!['.'] + dec_rep(v.minor as nat) + seq!['.'] + dec_rep(
        v.patch as nat,
    ) + (if v.pre@.len() > 0 {
        seq!['-'] + v.pre@
    } else {
        Seq::<char>::empty()
    }) + (if v.build@.len() > 0 {
        seq!['+'] + v.build@
    } else {
        Seq::<char>::empty()
    })
}

/// The rendering of a constraint as it stands inside the quotes of a
/// manifest entry.
pub open spec fn req_rep(r: VersionReq) -> Seq<char> {
    match r {
        VersionReq::Exact(v) => seq!['='] + version_rep(v),
        VersionReq::Compatible(v) => version_rep(v),
        VersionReq::Unversioned => Seq::<char>::empty(),
    }
}

/// The one-line pointer comment that replaces a migrated crate's legacy
/// build file, naming the destination path.
pub open spec fn stub_rep(path: Seq<char>) -> Seq<char> {
    "// This crate has been migrated to "@ + path + ".\n"@
}

/// Renders the migration-pointer stub for a destination path.
pub fn stub_line(path: &String) -> (s: String)
    ensures
        s@ == stub_rep(path@),
{
    let mut s = String::from_str("// This crate has been migrated to ");
    s.append(path.as_str());
    s.append(".\n");
    s
}

fn digit_str(d: u64) -> (r: &'static str)
    requires
        d < 10,
    ensures
        r@ == seq![digit_char(d as int)],
{
    proof {
        reveal_strlit("0");
        reveal_strlit("1");
        reveal_strlit("2");
        reveal_strlit("3");
        reveal_strlit("4");
        reveal_strlit("5");
        reveal_strlit("6");
        reveal_strlit("7");
        reveal_strlit("8");
        reveal_strlit("9");
    }
    let r: &'static str = if d == 0 {
        "0"
    } else if d == 1 {
        "1"
    } else if d == 2 {
        "2"
    } else if d == 3 {
        "3"
    } else if d == 4 {
        "4"
    } else if d == 5 {
        "5"
    } else if d == 6 {
        "6"
    } else if d == 7 {
        "7"
    } else if d == 8 {
        "8"
    } else {
        "9"
    };
    assert(r@ =~= seq![digit_char(d as int)]);
    r
}

/// Renders a number in decimal.
pub fn decimal_string(n: u64) -> (s: String)
    ensures
        s@ == dec_rep(n as nat),
    decreases n,
{
    if n < 10 {
        let s = String::from_str(digit_str(n));
        assert(s@ =~= dec_rep(n as nat));
        s
    } else {
        let mut s = decimal_string(n / 10);
        s.append(digit_str(n % 10));
        assert(s@ =~= dec_rep(n as nat));
        s
    }
}

impl Version {
    /// Renders the version as `major.minor.patch`.
    pub fn render(&self) -> (s: String)
        ensures
            s@ == version_rep(*self),
    {
        proof {
            reveal_strlit(".");
            reveal_strlit("-");
            reveal_strlit("+");
        }
        let mut s = decimal_string(self.major);
        s.append(".");
        let minor = decimal_string(self.minor);
        s.append(minor.as_str());
        s.append(".");
        let patch = decimal_string(self.patch);
        s.append(patch.as_str());
        assert(s@ =~= dec_rep(self.major as nat) + seq!['.'] + dec_rep(self.minor as nat)
            + seq!['.'] + dec_rep(self.patch as nat));
        if !self.pre.as_str().is_empty() {
            s.append("-");
            s.append(self.pre.as_str());
        }
        assert(s@ =~= dec_rep(self.major as nat) + seq!['.'] + dec_rep(self.minor as nat)
            + seq!['.'] + dec_rep(self.patch as nat) + (if self.pre@.len() > 0 {
            seq!['-'] + self.pre@
        } else {
            Seq::<char>::empty()
        }));
        if !self.build.as_str().is_empty() {
            s.append("+");
            s.append(self.build.as_str());
        }
        assert(s@ =~= version_rep(*self));
        s
    }
}

impl VersionReq {
    /// Renders the constraint as it stands inside the quotes of a manifest
    /// entry.
    pub fn render(&self) -> (s: String)
        ensures
            s@ == req_rep(*self),
    {
        proof {
            reveal_strlit("=");
            reveal_strlit("");
        }
        match self {
            VersionReq::Exact(v) => {
                let mut s = String::from_str("=");
                let ver = v.render();
                s.append(ver.as_str());
                assert(s@ =~= req_rep(*self));
                s
            },
            VersionReq::Compatible(v) => {
                let s = v.render();
                s
            },
            VersionReq::Unversioned => {
                let s = String::from_str("");
                assert(s@ =~= req_rep(*self));
                s
            },
        }
    }
}

} // verus!
