//! One transit brand of the dataset.

use vstd::prelude::*;

use crate::error::{Error, ErrorV};
use crate::table::{opt_string, req_string, spec_opt_str, spec_req_str, TableRow};
use crate::Id;

verus! {

#[derive(Debug, Default)]
pub struct Agency {
    /// Identifies the brand; required only when a dataset carries several.
    pub id: Option<String>,
    /// Full name of the transit agency.
    pub name: String,
    /// URL of the transit agency.
    pub url: String,
    /// Timezone where the transit agency is located.
    pub timezone: String,
    /// Primary language used by this transit agency.
    pub lang: Option<String>,
    /// A voice telephone number for the agency.
    pub phone: Option<String>,
    /// URL for buying tickets online.
    pub fare_url: Option<String>,
    /// Customer service email address.
    pub email: Option<String>,
}

impl Id for Agency {
    open spec fn id_spec(&self) -> Seq<char> {
        match self.id {
            Some(ref s) => s@,
            None => Seq::<char>::empty(),
        }
    }

    fn id(&self) -> (r: &str) {
        match &self.id {
            None => {
                proof {
                    reveal_strlit("");
                    assert(""@ =~= Seq::<char>::empty());
                }
                ""
            },
            Some(id) => id.as_str(),
        }
    }
}

impl TableRow for Agency {
    open spec fn row_ok(h: Seq<Seq<char>>, r: Seq<Seq<char>>) -> bool {
        &&& spec_req_str(h, r, "agency_name"@) is Ok
        &&& spec_req_str(h, r, "agency_url"@) is Ok
        &&& spec_req_str(h, r, "agency_timezone"@) is Ok
    }

    open spec fn row_err(h: Seq<Seq<char>>, r: Seq<Seq<char>>) -> ErrorV {
        if spec_req_str(h, r, "agency_name"@) is Err {
            spec_req_str(h, r, "agency_name"@)->Err_0
        } else if spec_req_str(h, r, "agency_url"@) is Err {
            spec_req_str(h, r, "agency_url"@)->Err_0
        } else {
            spec_req_str(h, r, "agency_timezone"@)->Err_0
        }
    }

    open spec fn row_matches(h: Seq<Seq<char>>, r: Seq<Seq<char>>, v: Agency) -> bool {
        &&& v.id.deep_view() == spec_opt_str(h, r, "agency_id"@)
        &&& Ok::<_, ErrorV>(v.name@) == spec_req_str(h, r, "agency_name"@)
        &&& Ok::<_, ErrorV>(v.url@) == spec_req_str(h, r, "agency_url"@)
        &&& Ok::<_, ErrorV>(v.timezone@) == spec_req_str(h, r, "agency_timezone"@)
        &&& v.lang.deep_view() == spec_opt_str(h, r, "agency_lang"@)
        &&& v.phone.deep_view() == spec_opt_str(h, r, "agency_phone"@)
        &&& v.fare_url.deep_view() == spec_opt_str(h, r, "agency_fare_url"@)
        &&& v.email.deep_view() == spec_opt_str(h, r, "agency_email"@)
    }

    fn decode_row(header: &Vec<String>, row: &Vec<String>) -> (res: Result<Agency, Error>) {
        let name = match req_string(header, row, "agency_name") {
            Ok(v) => v,
            Err(e) => return Err(e),
        };
        let url = match req_string(header, row, "agency_url") {
            Ok(v) => v,
            Err(e) => return Err(e),
        };
        let timezone = match req_string(header, row, "agency_timezone") {
            Ok(v) => v,
            Err(e) => return Err(e),
        };
        Ok(
            Agency {
                id: opt_string(header, row, "agency_id"),
                name,
                url,
                timezone,
                lang: opt_string(header, row, "agency_lang"),
                phone: opt_string(header, row, "agency_phone"),
                fare_url: opt_string(header, row, "agency_fare_url"),
                email: opt_string(header, row, "agency_email"),
            },
        )
    }
}

} // verus!
