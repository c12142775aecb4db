//! The site endpoints' own rule: which configured logo or favicon is served
//! by the site itself, and when the answer is 404.
use vstd::prelude::*;

use crate::branding::{asset_too_large, content_type_for_extension, path_image_type, BrandingAsset, BRANDING_ASSET_LIMIT};
use crate::error::ApiError;
use crate::repo::meta::spec_is_http_url;

verus! {

/// What serving a configured branding value needs: the file to read and its
/// content type, or `404`. Nothing is configured, a URL (served by its own
/// host), or a file whose extension is not an allowed image type are all
/// `404 not_found`.
pub fn local_asset(raw: Option<&str>) -> (r: Result<(String, &'static str), ApiError>)
    ensures
        match raw {
            Some(v) => if !spec_is_http_url(v@) && path_image_type(v@) is Some {
                r matches Ok((p, t)) && p@ == v@ && Some(t@) == path_image_type(v@)
            } else {
                r matches Err(ApiError::NotFound)
            },
            None => r matches Err(ApiError::NotFound),
        },
{
    let v = match raw {
        Some(v) => v,
        None => return Err(ApiError::NotFound),
    };
    match BrandingAsset::parse(v) {
        BrandingAsset::File(p) => match content_type_for_extension(p.as_str()) {
            Some(t) => Ok((p, t)),
            None => Err(ApiError::NotFound),
        },
        BrandingAsset::Url(_) => Err(ApiError::NotFound),
    }
}

/// Whether a branding file of `size` bytes is served: over the cap it is
/// `404 not_found`.
pub fn check_asset_size(size: u64) -> (r: Result<(), ApiError>)
    ensures
        size > BRANDING_ASSET_LIMIT ==> r matches Err(ApiError::NotFound),
        size <= BRANDING_ASSET_LIMIT ==> r is Ok,
{
    if asset_too_large(size) {
        Err(ApiError::NotFound)
    } else {
        Ok(())
    }
}

} // verus!
