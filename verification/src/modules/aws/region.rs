//! Which region of the cloud a module works in.

use crate::modules::aws::cloudformation::Error;
use rusoto_signature::region::{ParseRegionError, Region};
use vstd::prelude::*;

verus! {

/// `Region` of `rusoto_signature`: a region of the cloud. Nothing is known of
/// what is in it; it is handed on as it comes.
#[verifier::external_type_specification]
#[verifier::external_body]
pub struct ExRegion(Region);

/// `ParseRegionError` of `rusoto_signature`: the failure to read a name as a
/// region. Nothing is known of what is in it.
#[verifier::external_type_specification]
#[verifier::external_body]
pub struct ExParseRegionError(ParseRegionError);

/// The region that `Region::from_str` of `rusoto_signature` reads `name` as,
/// if it reads it as one. Which names it reads, and as what, is not stated
/// here: the list is the outside crate's.
pub uninterp spec fn region_named(name: Seq<char>) -> Option<Region>;

/// `Region::from_str` of `rusoto_signature`: the region that a name stands
/// for. The call looks the name up, without regard to case, in its list of
/// regions and fails for a name that is not in the list. It is taken on trust
/// that the answer depends on the name alone, which is all that the contract
/// says.
#[verifier::external_body]
fn parse_region(name: &str) -> (r: Result<Region, ParseRegionError>)
    ensures
        match region_named(name@) {
            Some(region) => r matches Ok(got) && got == region,
            None => r is Err,
        },
{
    name.parse::<Region>()
}

/// The name to go by: the first that is given of the default region of the
/// environment, the region of the environment, and the region of the profile.
pub open spec fn chosen(
    default_region: Option<String>,
    region: Option<String>,
    profile: Option<String>,
) -> Option<Seq<char>> {
    match default_region {
        Some(name) => Some(name@),
        None => match region {
            Some(name) => Some(name@),
            None => match profile {
                Some(name) => Some(name@),
                None => None,
            },
        },
    }
}

/// The region to work in, from the names that the environment and the
/// profile give. Only the first name that is given counts: where it names no
/// region, the others are not tried.
pub fn get_region(
    default_region: Option<String>,
    region: Option<String>,
    profile: Option<String>,
) -> (r: Result<Region, Error>)
    ensures
        match chosen(default_region, region, profile) {
            Some(name) => match region_named(name) {
                Some(found) => r matches Ok(got) && got == found,
                None => r matches Err(e) && e is RegionNotFoundError,
            },
            None => r matches Err(e) && e is RegionNotFoundError,
        },
{
    let name = match default_region {
        Some(name) => name,
        None => match region {
            Some(name) => name,
            None => match profile {
                Some(name) => name,
                None => {
                    return Err(Error::RegionNotFoundError);
                },
            },
        },
    };
    match parse_region(name.as_str()) {
        Ok(found) => Ok(found),
        Err(_) => Err(Error::RegionNotFoundError),
    }
}

} // verus!
