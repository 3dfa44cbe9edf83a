//! The three helpers that a page template can call, from the arguments of a
//! call to the text it writes or the fault it reports.

use vstd::prelude::*;
use vstd::std_specs::cmp::PartialEqSpec;
use vstd::string::StringExecFns;
use crate::id::{id_text, text_as_id};
use crate::intersect::{marker_count, marker_text, arrays_intersect, markers};
use crate::domain::{domain_of, url_domain};

verus! {

/// Why a call of a helper fails.
#[derive(Debug, PartialEq, Eq)]
pub enum HelperError {
    /// `id` was called without an argument.
    IdParamMissing,
    /// `arrays-intersect` was called without a first argument.
    FirstArrayMissing,
    /// The first argument of `arrays-intersect` is no array.
    FirstArrayInvalid,
    /// `arrays-intersect` was called without a second argument.
    SecondArrayMissing,
    /// The second argument of `arrays-intersect` is no array.
    SecondArrayInvalid,
    /// `url-domain` was called without an argument.
    UrlParamMissing,
    /// The argument of `url-domain`, given here, holds no link.
    UrlInvalid(String),
}

/// What a fault is, with texts as mathematical values.
pub enum HelperFault {
    IdParamMissing,
    FirstArrayMissing,
    FirstArrayInvalid,
    SecondArrayMissing,
    SecondArrayInvalid,
    UrlParamMissing,
    UrlInvalid(Seq<char>),
}

impl View for HelperError {
    type V = HelperFault;

    open spec fn view(&self) -> HelperFault {
        match self {
            HelperError::IdParamMissing => HelperFault::IdParamMissing,
            HelperError::FirstArrayMissing => HelperFault::FirstArrayMissing,
            HelperError::FirstArrayInvalid => HelperFault::FirstArrayInvalid,
            HelperError::SecondArrayMissing => HelperFault::SecondArrayMissing,
            HelperError::SecondArrayInvalid => HelperFault::SecondArrayInvalid,
            HelperError::UrlParamMissing => HelperFault::UrlParamMissing,
            HelperError::UrlInvalid(text) => HelperFault::UrlInvalid(text@),
        }
    }
}

/// The sentence that reports a fault.
pub open spec fn fault_message(e: HelperFault) -> Seq<char> {
    match e {
        HelperFault::IdParamMissing => "`id` helper: Param not given"@,
        HelperFault::FirstArrayMissing => "`arrays-intersect` helper: First param not given"@,
        HelperFault::FirstArrayInvalid =>
            "`arrays-intersect` helper: First param must be of type `array`"@,
        HelperFault::SecondArrayMissing => "`arrays-intersect` helper: Second param not given"@,
        HelperFault::SecondArrayInvalid =>
            "`arrays-intersect` helper: Second param must be of type `array`"@,
        HelperFault::UrlParamMissing => "`url-domain` helper: Param not given"@,
        HelperFault::UrlInvalid(text) => "`url-domain` helper: String is not valid URL: '"@ + text
            + "'"@,
    }
}

impl HelperError {
    /// The sentence that reports the fault.
    pub fn message(&self) -> (r: String)
        ensures
            r@ == fault_message(self@),
    {
        match self {
            HelperError::IdParamMissing => "`id` helper: Param not given".to_owned(),
            HelperError::FirstArrayMissing => "`arrays-intersect` helper: First param not given"
                .to_owned(),
            HelperError::FirstArrayInvalid =>
                "`arrays-intersect` helper: First param must be of type `array`".to_owned(),
            HelperError::SecondArrayMissing => "`arrays-intersect` helper: Second param not given"
                .to_owned(),
            HelperError::SecondArrayInvalid =>
                "`arrays-intersect` helper: Second param must be of type `array`".to_owned(),
            HelperError::UrlParamMissing => "`url-domain` helper: Param not given".to_owned(),
            HelperError::UrlInvalid(text) => {
                let mut r = "`url-domain` helper: String is not valid URL: '".to_owned();
                r.append(text.as_str());
                r.append("'");
                r
            },
        }
    }
}

/// An argument of `arrays-intersect`, as the caller found it.
pub enum ArrayParam<'a, T> {
    /// The call has no argument at this place.
    Missing,
    /// There is an argument, and it is no array.
    NotArray,
    /// The items of the array that was given.
    Array(&'a [T]),
}

/// The helper `id`: the identifier of its argument.
pub fn id_helper(param: Option<&str>) -> (r: Result<String, HelperError>)
    ensures
        match param {
            Some(text) => r is Ok && r->Ok_0@ == id_text(text@),
            None => r is Err && r->Err_0@ == HelperFault::IdParamMissing,
        },
{
    match param {
        Some(text) => Ok(text_as_id(text)),
        None => Err(HelperError::IdParamMissing),
    }
}

/// The helper `arrays-intersect`: the markers for its two arguments, written
/// out. The first argument is looked at before the second.
pub fn arrays_intersect_helper<T: PartialEq>(a: ArrayParam<'_, T>, b: ArrayParam<'_, T>) -> (r:
    Result<String, HelperError>)
    ensures
        match (a, b) {
            (ArrayParam::Missing, _) => r is Err && r->Err_0@ == HelperFault::FirstArrayMissing,
            (ArrayParam::NotArray, _) => r is Err && r->Err_0@ == HelperFault::FirstArrayInvalid,
            (ArrayParam::Array(_), ArrayParam::Missing) => r is Err && r->Err_0@
                == HelperFault::SecondArrayMissing,
            (ArrayParam::Array(_), ArrayParam::NotArray) => r is Err && r->Err_0@
                == HelperFault::SecondArrayInvalid,
            (ArrayParam::Array(x), ArrayParam::Array(y)) => r is Ok && (T::obeys_eq_spec()
                ==> r->Ok_0@ == marker_text(marker_count(x@, y@))),
        },
{
    let x = match a {
        ArrayParam::Missing => {
            return Err(HelperError::FirstArrayMissing);
        },
        ArrayParam::NotArray => {
            return Err(HelperError::FirstArrayInvalid);
        },
        ArrayParam::Array(x) => x,
    };
    let y = match b {
        ArrayParam::Missing => {
            return Err(HelperError::SecondArrayMissing);
        },
        ArrayParam::NotArray => {
            return Err(HelperError::SecondArrayInvalid);
        },
        ArrayParam::Array(y) => y,
    };
    Ok(markers(arrays_intersect(x, y)))
}

/// The helper `url-domain`: the host of the first link in its argument.
pub fn url_domain_helper(param: Option<&str>) -> (r: Result<String, HelperError>)
    ensures
        match param {
            Some(text) => match domain_of(text@) {
                Some(host) => r is Ok && r->Ok_0@ == host,
                None => r is Err && r->Err_0@ == HelperFault::UrlInvalid(text@),
            },
            None => r is Err && r->Err_0@ == HelperFault::UrlParamMissing,
        },
{
    match param {
        Some(text) => match url_domain(text) {
            Ok(host) => Ok(host),
            Err(fault) => Err(HelperError::UrlInvalid(fault.text)),
        },
        None => Err(HelperError::UrlParamMissing),
    }
}

} // verus!
