use crate::error::Error;
use crate::las_version::{
    spec_format_version, spec_parse_version, spec_version_allowed, Version,
};
use vstd::prelude::*;
use vstd::string::StringSliceAdditionalSpecFns;

verus! {

/// An output format version for the streaming converters: major 1, minor 0
/// through 4. Version 1.4 must be constructible, since only a run that
/// targets at least 1.4 can reach the extended record layout.
#[derive(Clone, Copy, Debug)]
pub struct LasVersion(pub (u8, u8));

/// A pair the streaming converters accept: major 1, minor 0 through 4.
pub open spec fn spec_las_version_allowed(major: u8, minor: u8) -> bool {
    major == 1 && minor <= 4
}

impl LasVersion {
    /// Validate a `(major, minor)` pair into a version.
    pub fn new(major: u8, minor: u8) -> (r: Result<Self, Error>)
        ensures
            r is Ok <==> spec_las_version_allowed(major, minor),
            r is Ok ==> r->Ok_0.0 == (major, minor),
            r is Err ==> r->Err_0 is InvalidLasVersion,
    {
        Self::try_from((major, minor))
    }

    /// Validate a `(major, minor)` pair: the major must be 1 and the minor
    /// between 0 and 4.
    pub fn try_from(value: (u8, u8)) -> (r: Result<Self, Error>)
        ensures
            r is Ok <==> spec_las_version_allowed(value.0, value.1),
            r is Ok ==> r->Ok_0.0 == value,
            r is Err ==> r->Err_0 is InvalidLasVersion,
    {
        let (major, minor) = value;
        if major != 1 {
            return Err(Error::InvalidLasVersion("major should be equals to 1".to_owned()));
        }
        if minor > 4 {
            return Err(Error::InvalidLasVersion("minor should be between 0 and 4".to_owned()));
        }
        Ok(LasVersion((major, minor)))
    }
}

impl Default for LasVersion {
    /// Version 1.2, the most widely readable.
    fn default() -> (r: Self)
        ensures
            r.0 == (1u8, 2u8),
    {
        LasVersion((1, 2))
    }
}

/// Validating constructors for output format versions.
pub trait LasVersionExt where Self: core::marker::Sized {
    /// Validate a `(major, minor)` pair into a version.
    fn x_new_valid(major: u8, minor: u8) -> Result<Self, Error>;

    /// Parse text in the form `major.minor` and validate it.
    fn x_try_from_str(value: &str) -> Result<Self, Error>;
}

impl LasVersionExt for Version {
    /// Validate a `(major, minor)` pair: `Ok` exactly for versions 1.0
    /// through 1.4.
    fn x_new_valid(major: u8, minor: u8) -> (r: Result<Self, Error>)
        ensures
            r is Ok <==> spec_version_allowed(major, minor),
            r is Ok ==> r->Ok_0 == (Version { major, minor }),
            r is Err ==> r->Err_0 is InvalidLasVersion,
    {
        Version::new(major, minor)
    }

    /// Parse a version from text in the form `major.minor` and validate it.
    fn x_try_from_str(value: &str) -> (r: Result<Self, Error>)
        ensures
            (match spec_parse_version(value.spec_bytes()) {
                Some((major, minor)) => {
                    &&& r is Ok <==> spec_version_allowed(major, minor)
                    &&& r is Ok ==> r->Ok_0 == (Version { major, minor })
                },
                None => r is Err,
            }),
            r is Err ==> r->Err_0 is InvalidLasVersion,
    {
        Version::try_from(value)
    }
}

/// Format a `(major, minor)` version pair as `major.minor`.
pub fn format_version(version: (u8, u8)) -> (r: String)
    ensures
        r@ == spec_format_version(version.0 as int, version.1 as int),
{
    crate::las_version::format_version(version)
}

} // verus!
