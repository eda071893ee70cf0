use vstd::prelude::*;

verus! {

/// A semantic version reduced to its numeric core.
#[derive(Clone, Copy, Debug, PartialEq, Eq, Structural)]
pub struct SemVer {
    pub major: u64,
    pub minor: u64,
    pub patch: u64,
}

/// The verdict on a declared version against the running one.
#[derive(Clone, Copy, Debug, PartialEq, Eq, Structural)]
pub enum CompatibilityVerdict {
    Compatible,
    Incompatible { declared: SemVer, running: SemVer },
}

/// A declared version is compatible with a running one when the majors agree,
/// and, before 1.0, when the declared minor does not exceed the running minor.
pub open spec fn version_compatible(declared: SemVer, running: SemVer) -> bool {
    &&& declared.major == running.major
    &&& !(declared.major == 0 && declared.minor > running.minor)
}

pub open spec fn verdict_of(declared: Option<SemVer>, running: SemVer) -> CompatibilityVerdict {
    match declared {
        None => CompatibilityVerdict::Compatible,
        Some(d) => if version_compatible(d, running) {
            CompatibilityVerdict::Compatible
        } else {
            CompatibilityVerdict::Incompatible { declared: d, running }
        },
    }
}

pub fn is_version_compatible(expected: &SemVer, actual: &SemVer) -> (r: bool)
    ensures
        r == version_compatible(*expected, *actual),
{
    if expected.major != actual.major {
        return false;
    }
    if expected.major == 0 && expected.minor > actual.minor {
        return false;
    }
    true
}

/// Gates a declared version (absent: no constraint) against the running one.
pub fn check_versions(declared: Option<SemVer>, running: SemVer) -> (r: CompatibilityVerdict)
    ensures
        r == verdict_of(declared, running),
{
    match declared {
        None => CompatibilityVerdict::Compatible,
        Some(d) => {
            if is_version_compatible(&d, &running) {
                CompatibilityVerdict::Compatible
            } else {
                CompatibilityVerdict::Incompatible { declared: d, running }
            }
        },
    }
}

/// What semver's parser makes of a text: major, minor and patch, or nothing.
pub uninterp spec fn semver_parse(text: Seq<char>) -> Option<(u64, u64, u64)>;

pub open spec fn parsed_version(text: Seq<char>) -> Option<SemVer> {
    match semver_parse(text) {
        Some((major, minor, patch)) => Some(SemVer { major, minor, patch }),
        None => None,
    }
}

#[verifier::external_type_specification]
#[verifier::external_body]
pub struct ExSemverError(semver::Error);

/// Relies on semver::Version::parse: its result depends on the text alone, and
/// an empty text is refused.
#[verifier::external_body]
pub(crate) fn parse_version(text: &str) -> (r: Result<SemVer, semver::Error>)
    ensures
        semver_parse(text@) == match r {
            Ok(v) => Some((v.major, v.minor, v.patch)),
            Err(_) => None::<(u64, u64, u64)>,
        },
        text@.len() == 0 ==> r is Err,
{
    match semver::Version::parse(text) {
        Ok(v) => Ok(SemVer { major: v.major, minor: v.minor, patch: v.patch }),
        Err(e) => Err(e),
    }
}

} // verus!
