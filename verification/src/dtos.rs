//! Data-transfer shapes of the URL endpoints, and the error payload the
//! service hands outward.

use vstd::prelude::*;

verus! {

/// Request body of URL creation: the target to shorten and the caller's
/// API-key credential.
#[derive(Debug)]
pub struct URLBaseDto {
    pub target_url: String,
    pub api_key: String,
}

/// Mathematical image of a [`URLBaseDto`].
pub struct UrlBaseDtoModel {
    pub target_url: Seq<char>,
    pub api_key: Seq<char>,
}

impl View for URLBaseDto {
    type V = UrlBaseDtoModel;

    open spec fn view(&self) -> UrlBaseDtoModel {
        UrlBaseDtoModel { target_url: self.target_url@, api_key: self.api_key@ }
    }
}

impl Clone for URLBaseDto {
    /// A field-for-field copy.
    fn clone(&self) -> (r: Self)
        ensures
            r@ == self@,
    {
        URLBaseDto { target_url: self.target_url.clone(), api_key: self.api_key.clone() }
    }
}

/// Plain outward shape of a short URL without its keys.
#[derive(Debug)]
pub struct URLDto {
    pub target_url: String,
    pub is_active: bool,
    pub clicks: i32,
}

/// Mathematical image of a [`URLDto`].
pub struct UrlDtoModel {
    pub target_url: Seq<char>,
    pub is_active: bool,
    pub clicks: int,
}

impl View for URLDto {
    type V = UrlDtoModel;

    open spec fn view(&self) -> UrlDtoModel {
        UrlDtoModel {
            target_url: self.target_url@,
            is_active: self.is_active,
            clicks: self.clicks as int,
        }
    }
}

impl Clone for URLDto {
    /// A field-for-field copy.
    fn clone(&self) -> (r: Self)
        ensures
            r@ == self@,
    {
        URLDto {
            target_url: self.target_url.clone(),
            is_active: self.is_active,
            clicks: self.clicks,
        }
    }
}

/// Outward shape of a short URL: its target, state, and the full short
/// and admin links rendered against the configured base address.
#[derive(Debug)]
pub struct URLInfoDto {
    pub target_url: String,
    pub is_active: bool,
    pub clicks: i32,
    pub url: String,
    pub admin_url: String,
}

/// Mathematical image of a [`URLInfoDto`].
pub struct UrlInfoDtoModel {
    pub target_url: Seq<char>,
    pub is_active: bool,
    pub clicks: int,
    pub url: Seq<char>,
    pub admin_url: Seq<char>,
}

impl View for URLInfoDto {
    type V = UrlInfoDtoModel;

    open spec fn view(&self) -> UrlInfoDtoModel {
        UrlInfoDtoModel {
            target_url: self.target_url@,
            is_active: self.is_active,
            clicks: self.clicks as int,
            url: self.url@,
            admin_url: self.admin_url@,
        }
    }
}

impl Clone for URLInfoDto {
    /// A field-for-field copy.
    fn clone(&self) -> (r: Self)
        ensures
            r@ == self@,
    {
        URLInfoDto {
            target_url: self.target_url.clone(),
            is_active: self.is_active,
            clicks: self.clicks,
            url: self.url.clone(),
            admin_url: self.admin_url.clone(),
        }
    }
}

/// Error payload handed outward by the URL service: a numeric code and a
/// short message.
#[derive(Debug)]
pub struct CustomError {
    pub code: i32,
    pub message: String,
}

/// Mathematical image of a [`CustomError`].
pub struct CustomErrorModel {
    pub code: int,
    pub message: Seq<char>,
}

impl View for CustomError {
    type V = CustomErrorModel;

    open spec fn view(&self) -> CustomErrorModel {
        CustomErrorModel { code: self.code as int, message: self.message@ }
    }
}

impl Clone for CustomError {
    /// A field-for-field copy.
    fn clone(&self) -> (r: Self)
        ensures
            r@ == self@,
    {
        CustomError { code: self.code, message: self.message.clone() }
    }
}

impl CustomError {
    /// Packs a code and a message into an error payload.
    pub fn new(code: i32, message: &str) -> (r: Self)
        ensures
            r@.code == code as int,
            r@.message == message@,
    {
        CustomError { code, message: message.to_owned() }
    }
}

} // verus!
