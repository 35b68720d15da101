//! Attributions of the dataset, or of parts of it, to organizations.

use vstd::prelude::*;

use crate::error::{Error, ErrorV};
use crate::table::{
    bool_field, opt_string, req_string, spec_bool_field, spec_opt_str, spec_req_str, TableRow,
};
use crate::Id;

verus! {

#[derive(Debug, Default)]
pub struct Attribution {
    /// Identifies the attribution.
    pub id: Option<String>,
    /// The agency the attribution applies to.
    pub agency_id: Option<String>,
    /// The route the attribution applies to.
    pub route_id: Option<String>,
    /// The trip the attribution applies to.
    pub trip_id: Option<String>,
    /// The organization the dataset is attributed to.
    pub organization_name: String,
    /// Whether the organization produced the dataset.
    pub is_producer: bool,
    /// Whether the organization operates the services.
    pub is_operator: bool,
    /// Whether the organization is the authority over the services.
    pub is_authority: bool,
    /// The URL of the organization.
    pub url: Option<String>,
    /// The email of the organization.
    pub email: Option<String>,
    /// The phone number of the organization.
    pub phone: Option<String>,
}

impl Id for Attribution {
    open spec fn id_spec(&self) -> Seq<char> {
        match self.id {
            Some(ref s) => s@,
            None => Seq::<char>::empty(),
        }
    }

    fn id(&self) -> (r: &str) {
        match &self.id {
            None => {
                proof {
                    reveal_strlit("");
                    assert(""@ =~= Seq::<char>::empty());
                }
                ""
            },
            Some(id) => id.as_str(),
        }
    }
}

impl TableRow for Attribution {
    open spec fn row_ok(h: Seq<Seq<char>>, r: Seq<Seq<char>>) -> bool {
        &&& spec_req_str(h, r, "organization_name"@) is Ok
        &&& spec_bool_field(h, r, "is_producer"@, Some(false)) is Ok
        &&& spec_bool_field(h, r, "is_operator"@, Some(false)) is Ok
        &&& spec_bool_field(h, r, "is_authority"@, Some(false)) is Ok
    }

    open spec fn row_err(h: Seq<Seq<char>>, r: Seq<Seq<char>>) -> ErrorV {
        if spec_req_str(h, r, "organization_name"@) is Err {
            spec_req_str(h, r, "organization_name"@)->Err_0
        } else if spec_bool_field(h, r, "is_producer"@, Some(false)) is Err {
            spec_bool_field(h, r, "is_producer"@, Some(false))->Err_0
        } else if spec_bool_field(h, r, "is_operator"@, Some(false)) is Err {
            spec_bool_field(h, r, "is_operator"@, Some(false))->Err_0
        } else {
            spec_bool_field(h, r, "is_authority"@, Some(false))->Err_0
        }
    }

    open spec fn row_matches(h: Seq<Seq<char>>, r: Seq<Seq<char>>, v: Attribution) -> bool {
        &&& v.id.deep_view() == spec_opt_str(h, r, "attribution_id"@)
        &&& v.agency_id.deep_view() == spec_opt_str(h, r, "agency_id"@)
        &&& v.route_id.deep_view() == spec_opt_str(h, r, "route_id"@)
        &&& v.trip_id.deep_view() == spec_opt_str(h, r, "trip_id"@)
        &&& Ok::<_, ErrorV>(v.organization_name@) == spec_req_str(h, r, "organization_name"@)
        &&& Ok::<_, ErrorV>(v.is_producer) == spec_bool_field(h, r, "is_producer"@, Some(false))
        &&& Ok::<_, ErrorV>(v.is_operator) == spec_bool_field(h, r, "is_operator"@, Some(false))
        &&& Ok::<_, ErrorV>(v.is_authority) == spec_bool_field(h, r, "is_authority"@, Some(false))
        &&& v.url.deep_view() == spec_opt_str(h, r, "attribution_url"@)
        &&& v.email.deep_view() == spec_opt_str(h, r, "attribution_email"@)
        &&& v.phone.deep_view() == spec_opt_str(h, r, "attribution_phone"@)
    }

    fn decode_row(header: &Vec<String>, row: &Vec<String>) -> (res: Result<Attribution, Error>) {
        let organization_name = match req_string(header, row, "organization_name") {
            Ok(v) => v,
            Err(e) => return Err(e),
        };
        let is_producer = match bool_field(header, row, "is_producer", Some(false)) {
            Ok(v) => v,
            Err(e) => return Err(e),
        };
        let is_operator = match bool_field(header, row, "is_operator", Some(false)) {
            Ok(v) => v,
            Err(e) => return Err(e),
        };
        let is_authority = match bool_field(header, row, "is_authority", Some(false)) {
            Ok(v) => v,
            Err(e) => return Err(e),
        };
        Ok(
            Attribution {
                id: opt_string(header, row, "attribution_id"),
                agency_id: opt_string(header, row, "agency_id"),
                route_id: opt_string(header, row, "route_id"),
                trip_id: opt_string(header, row, "trip_id"),
                organization_name,
                is_producer,
                is_operator,
                is_authority,
                url: opt_string(header, row, "attribution_url"),
                email: opt_string(header, row, "attribution_email"),
                phone: opt_string(header, row, "attribution_phone"),
            },
        )
    }
}

} // verus!
