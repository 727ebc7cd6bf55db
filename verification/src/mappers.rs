//! Mapping of a domain URL row to its outward info DTO.

use vstd::prelude::*;
use vstd::string::*;
use crate::config::{AppConfig, ConfigModel};
use crate::dtos::{URLInfoDto, UrlInfoDtoModel};
use crate::schema::{URL, UrlModel};

verus! {

/// The configured base address: `protocol://base_url:server_port`.
pub open spec fn base_address_model(c: ConfigModel) -> Seq<char> {
    c.protocol + "://"@ + c.base_url + ":"@ + c.server_port
}

/// The outward info DTO of a row: its plain fields, with the short and
/// admin links rendered against the base address.
pub open spec fn info_dto_model(u: UrlModel, c: ConfigModel) -> UrlInfoDtoModel {
    UrlInfoDtoModel {
        target_url: u.target_url,
        is_active: u.is_active,
        clicks: u.clicks,
        url: base_address_model(c) + "/"@ + u.key,
        admin_url: base_address_model(c) + "/admin/"@ + u.secret_key,
    }
}

/// Renders a row as its outward info DTO against the configured base
/// address.
pub fn map_url_to_dto(url: &URL, config: AppConfig) -> (r: URLInfoDto)
    ensures
        r@ == info_dto_model(url@, config@),
{
    let mut base = config.protocol.clone();
    base.append("://");
    base.append(config.base_url.as_str());
    base.append(":");
    base.append(config.server_port.as_str());

    let mut link = base.clone();
    link.append("/");
    link.append(url.key.as_str());

    let mut admin_link = base;
    admin_link.append("/admin/");
    admin_link.append(url.secret_key.as_str());

    let r = URLInfoDto {
        target_url: url.target_url.clone(),
        clicks: url.clicks,
        is_active: url.is_active,
        url: link,
        admin_url: admin_link,
    };
    proof {
        assert(r@.url =~= info_dto_model(url@, config@).url);
        assert(r@.admin_url =~= info_dto_model(url@, config@).admin_url);
    }
    r
}

} // verus!
