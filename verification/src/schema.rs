//! Domain rows: the short-URL row, the pool of unconsumed generated keys,
//! and the append-only audit trail of consumed keys.

use vstd::prelude::*;

verus! {

/// A short URL row: the public key embedded in short links, the private
/// secret key granting admin rights, the redirect target, the activity
/// gate for redemption, the click counter and the owning user.
#[derive(Debug)]
pub struct URL {
    pub key: String,
    pub secret_key: String,
    pub target_url: String,
    pub is_active: bool,
    pub clicks: i32,
    pub user_id: i32,
}

/// Mathematical image of a [`URL`] row.
pub struct UrlModel {
    pub key: Seq<char>,
    pub secret_key: Seq<char>,
    pub target_url: Seq<char>,
    pub is_active: bool,
    pub clicks: int,
    pub user_id: int,
}

impl View for URL {
    type V = UrlModel;

    open spec fn view(&self) -> UrlModel {
        UrlModel {
            key: self.key@,
            secret_key: self.secret_key@,
            target_url: self.target_url@,
            is_active: self.is_active,
            clicks: self.clicks as int,
            user_id: self.user_id as int,
        }
    }
}

impl Clone for URL {
    /// A field-for-field copy.
    fn clone(&self) -> (r: Self)
        ensures
            r@ == self@,
    {
        URL {
            key: self.key.clone(),
            secret_key: self.secret_key.clone(),
            target_url: self.target_url.clone(),
            is_active: self.is_active,
            clicks: self.clicks,
            user_id: self.user_id,
        }
    }
}

/// An unconsumed candidate key awaiting allocation; its value is the full
/// two-segment secret string.
#[derive(Debug)]
pub struct GeneratedKey {
    pub key_value: String,
}

impl View for GeneratedKey {
    type V = Seq<char>;

    open spec fn view(&self) -> Seq<char> {
        self.key_value@
    }
}

impl Clone for GeneratedKey {
    /// A field-for-field copy.
    fn clone(&self) -> (r: Self)
        ensures
            r@ == self@,
    {
        GeneratedKey { key_value: self.key_value.clone() }
    }
}

/// Audit record of a consumed key: which public key value was minted and
/// for which user.
#[derive(Debug)]
pub struct UsedKey {
    pub id: i32,
    pub key_value: String,
    pub user_id: i32,
}

/// Mathematical image of a [`UsedKey`] row.
pub struct UsedKeyModel {
    pub id: int,
    pub key_value: Seq<char>,
    pub user_id: int,
}

impl View for UsedKey {
    type V = UsedKeyModel;

    open spec fn view(&self) -> UsedKeyModel {
        UsedKeyModel {
            id: self.id as int,
            key_value: self.key_value@,
            user_id: self.user_id as int,
        }
    }
}

impl Clone for UsedKey {
    /// A field-for-field copy.
    fn clone(&self) -> (r: Self)
        ensures
            r@ == self@,
    {
        UsedKey {
            id: self.id,
            key_value: self.key_value.clone(),
            user_id: self.user_id,
        }
    }
}

} // verus!
