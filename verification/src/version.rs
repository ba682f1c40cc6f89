//! Semantic versions, parsed and compared by the `semver` crate.
use vstd::prelude::*;

use crate::text::{decimal, push_decimal, push_str, string_of};

verus! {

/// What `semver::Version::parse` makes of `text`: the major, minor and patch
/// numbers with the pre-release and build identifiers, or the text of its error.
pub uninterp spec fn semver_parse(text: Seq<char>) -> Result<
    (u64, u64, u64, Seq<char>, Seq<char>),
    Seq<char>,
>;

/// Whether the version parsed from `a` compares greater than the one parsed
/// from `b` (`semver::Version as PartialOrd`).
pub uninterp spec fn semver_gt(a: Seq<char>, b: Seq<char>) -> bool;

/// What `semver::VersionReq::parse(req)` then `matches` says of the version
/// parsed from `version`: `None` when the requirement does not parse.
pub uninterp spec fn semver_req_matches(req: Seq<char>, version: Seq<char>) -> Option<bool>;

/// A semantic version `major.minor.patch[-pre][+build]`.
#[derive(Debug)]
pub struct Version {
    text: String,
    major: u64,
    minor: u64,
    patch: u64,
    pre: String,
    build: String,
}

/// `(a0, a1, a2)` is lexicographically greater than `(b0, b1, b2)`.
pub open spec fn triple_gt(a: (u64, u64, u64), b: (u64, u64, u64)) -> bool {
    a.0 > b.0 || (a.0 == b.0 && (a.1 > b.1 || (a.1 == b.1 && a.2 > b.2)))
}

impl Version {
    /// The parts of a version are those `semver` read from its text.
    #[verifier::type_invariant]
    spec fn parsed_from_text(&self) -> bool {
        semver_parse(self.text@) == Ok::<_, Seq<char>>(
            (self.major, self.minor, self.patch, self.pre@, self.build@),
        )
    }

    pub closed spec fn text(&self) -> Seq<char> {
        self.text@
    }

    pub closed spec fn parts(&self) -> (u64, u64, u64, Seq<char>, Seq<char>) {
        (self.major, self.minor, self.patch, self.pre@, self.build@)
    }

    /// The major, minor and patch numbers.
    pub open spec fn triple(&self) -> (u64, u64, u64) {
        (self.parts().0, self.parts().1, self.parts().2)
    }

    /// Parses a version (`semver::Version::parse`); the error is the text of `semver`'s error.
    #[verifier::external_body]
    pub fn parse(text: &str) -> (r: Result<Version, String>)
        ensures
            match r {
                Ok(v) => semver_parse(text@) == Ok::<_, Seq<char>>(v.parts()) && v.text() == text@,
                Err(e) => semver_parse(text@) == Err::<(u64, u64, u64, Seq<char>, Seq<char>), _>(
                    e@,
                ),
            },
    {
        match semver::Version::parse(text) {
            Ok(v) => Ok(Version {
                text: text.to_string(),
                major: v.major,
                minor: v.minor,
                patch: v.patch,
                pre: v.pre.as_str().to_string(),
                build: v.build.as_str().to_string(),
            }),
            Err(e) => Err(e.to_string()),
        }
    }

    /// Whether `self` is a later version than `other`: the one with the greater
    /// major, minor and patch numbers, compared in that order, is later.
    #[verifier::external_body]
    pub fn newer_than(&self, other: &Version) -> (r: bool)
        ensures
            r == semver_gt(self.text(), other.text()),
            triple_gt(self.triple(), other.triple()) ==> r,
            triple_gt(other.triple(), self.triple()) ==> !r,
    {
        semver::Version::parse(&self.text).unwrap() > semver::Version::parse(&other.text).unwrap()
    }

    /// Whether the version meets the requirement `req` (`semver::VersionReq`);
    /// `None` when `req` is not a valid requirement.
    #[verifier::external_body]
    pub fn meets(&self, req: &str) -> (r: Option<bool>)
        ensures
            r == semver_req_matches(req@, self.text()),
    {
        match semver::VersionReq::parse(req) {
            Ok(q) => Some(q.matches(&semver::Version::parse(&self.text).unwrap())),
            Err(_) => None,
        }
    }

    /// The canonical text `major.minor.patch[-pre][+build]`.
    pub open spec fn canonical(parts: (u64, u64, u64, Seq<char>, Seq<char>)) -> Seq<char> {
        decimal(parts.0 as nat) + "."@ + decimal(parts.1 as nat) + "."@ + decimal(parts.2 as nat)
            + (if parts.3.len() == 0 {
            Seq::empty()
        } else {
            "-"@ + parts.3
        }) + (if parts.4.len() == 0 {
            Seq::empty()
        } else {
            "+"@ + parts.4
        })
    }

    /// The version written canonically, as `semver` displays it.
    pub fn display(&self) -> (s: String)
        ensures
            s@ == Version::canonical(self.parts()),
    {
        let mut v: Vec<char> = Vec::new();
        push_decimal(&mut v, self.major);
        push_str(&mut v, ".");
        push_decimal(&mut v, self.minor);
        push_str(&mut v, ".");
        push_decimal(&mut v, self.patch);
        let ghost base = v@;
        if !self.pre.as_str().is_empty() {
            push_str(&mut v, "-");
            push_str(&mut v, self.pre.as_str());
        }
        let ghost with_pre = v@;
        if !self.build.as_str().is_empty() {
            push_str(&mut v, "+");
            push_str(&mut v, self.build.as_str());
        }
        proof {
            if self.pre@.len() == 0 {
                assert(with_pre =~= base + Seq::<char>::empty());
            }
            if self.build@.len() == 0 {
                assert(v@ =~= with_pre + Seq::<char>::empty());
            }
            assert(v@ =~= Version::canonical(self.parts()));
        }
        string_of(v.as_slice())
    }

    pub fn major(&self) -> (n: u64)
        ensures
            n == self.parts().0,
    {
        self.major
    }

    pub fn minor(&self) -> (n: u64)
        ensures
            n == self.parts().1,
    {
        self.minor
    }

    pub fn patch(&self) -> (n: u64)
        ensures
            n == self.parts().2,
    {
        self.patch
    }

    /// The original text the version was parsed from.
    pub fn as_text(&self) -> (s: &str)
        ensures
            s@ == self.text(),
    {
        self.text.as_str()
    }
}

} // verus!
