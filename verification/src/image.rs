//! Where the bytes of an image come from.

use std::str::FromStr;
use vstd::prelude::*;
use crate::text::starts_with;

verus! {

/// The way to the bytes of an image.
#[derive(Clone, Copy, Debug, PartialEq, Eq, Structural)]
pub enum ImageRoute {
    /// The source is a path in the local file system.
    File,
    /// The source is a remote address whose bytes were fetched before.
    Cached,
    /// The source is a remote address that has to be fetched.
    Fetch,
    /// The source looks like a remote address, but is no valid URI; there is
    /// no way to its bytes.
    Broken,
}

/// Whether a source is a remote address: one that begins with `http://` or
/// `https://`. Every other source is read as a path in the local file
/// system.
pub open spec fn is_remote(src: Seq<char>) -> bool {
    "http://"@.is_prefix_of(src) || "https://"@.is_prefix_of(src)
}

/// Tells whether a source is a remote address.
pub fn is_remote_source(src: &str) -> (remote: bool)
    ensures
        remote == is_remote(src@),
{
    starts_with(src, "http://") || starts_with(src, "https://")
}

/// Whether `Uri::from_str` accepts the string, for the `Uri` that hyper
/// hands on from the http crate.
pub uninterp spec fn uri_parses(s: Seq<char>) -> bool;

/// Asks hyper's `Uri::from_str` whether the string is a URI, and tells
/// whether it came back with `Ok`. The outcome rests on the characters of
/// the string alone, so it has a name, [`uri_parses`]; what decides it is the
/// grammar of URIs in the http crate, of which nothing is stated here. The
/// call does not panic: what it cannot read, it returns as an error.
#[verifier::external_body]
fn parses_as_uri(s: &str) -> (ok: bool)
    ensures
        ok == uri_parses(s@),
{
    hyper::Uri::from_str(s).is_ok()
}

/// The way to an image, given what is known of its source: whether it is a
/// remote address, whether its bytes are in the cache, and whether it is a
/// valid URI. A remote image is fetched once: while its bytes are in the
/// cache, they are used.
pub open spec fn image_route(remote: bool, cached: bool, valid: bool) -> ImageRoute {
    if !remote {
        ImageRoute::File
    } else if cached {
        ImageRoute::Cached
    } else if valid {
        ImageRoute::Fetch
    } else {
        ImageRoute::Broken
    }
}

/// Picks the way to an image.
pub fn choose_route(remote: bool, cached: bool, valid: bool) -> (route: ImageRoute)
    ensures
        route == image_route(remote, cached, valid),
{
    if !remote {
        ImageRoute::File
    } else if cached {
        ImageRoute::Cached
    } else if valid {
        ImageRoute::Fetch
    } else {
        ImageRoute::Broken
    }
}

/// The way to the image that `src` names, where `cached` tells whether the
/// cache holds bytes for `src`.
pub open spec fn route_of(src: Seq<char>, cached: bool) -> ImageRoute {
    image_route(is_remote(src), cached, uri_parses(src))
}

/// Finds the way to the image that `src` names.
pub fn route_image(src: &str, cached: bool) -> (route: ImageRoute)
    ensures
        route == route_of(src@, cached),
{
    let remote = is_remote_source(src);
    let valid = remote && !cached && parses_as_uri(src);
    choose_route(remote, cached, valid)
}

} // verus!
