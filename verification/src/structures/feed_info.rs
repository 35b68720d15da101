//! Information about the dataset itself and its publisher.

use vstd::prelude::*;

use crate::codecs::Date;
use crate::error::{Error, ErrorV};
use crate::table::{
    opt_date, opt_string, req_string, spec_opt_date, spec_opt_str, spec_req_str, TableRow,
};

verus! {

#[derive(Debug, Default)]
pub struct FeedInfo {
    /// Full name of the publishing organization.
    pub name: String,
    /// URL of the publishing organization.
    pub url: String,
    /// Default language of the dataset's text.
    pub lang: String,
    /// Language used when the rider's language is unknown.
    pub default_lang: Option<String>,
    /// First day the dataset gives reliable schedule information for.
    pub start_date: Option<Date>,
    /// Last day the dataset gives reliable schedule information for.
    pub end_date: Option<Date>,
    /// The publisher's version text for the dataset.
    pub version: Option<String>,
    /// Technical contact email for the dataset.
    pub contact_email: Option<String>,
    /// Technical contact URL for the dataset.
    pub contact_url: Option<String>,
}

impl TableRow for FeedInfo {
    open spec fn row_ok(h: Seq<Seq<char>>, r: Seq<Seq<char>>) -> bool {
        &&& spec_req_str(h, r, "feed_publisher_name"@) is Ok
        &&& spec_req_str(h, r, "feed_publisher_url"@) is Ok
        &&& spec_req_str(h, r, "feed_lang"@) is Ok
        &&& spec_opt_date(h, r, "feed_start_date"@) is Ok
        &&& spec_opt_date(h, r, "feed_end_date"@) is Ok
    }

    open spec fn row_err(h: Seq<Seq<char>>, r: Seq<Seq<char>>) -> ErrorV {
        if spec_req_str(h, r, "feed_publisher_name"@) is Err {
            spec_req_str(h, r, "feed_publisher_name"@)->Err_0
        } else if spec_req_str(h, r, "feed_publisher_url"@) is Err {
            spec_req_str(h, r, "feed_publisher_url"@)->Err_0
        } else if spec_req_str(h, r, "feed_lang"@) is Err {
            spec_req_str(h, r, "feed_lang"@)->Err_0
        } else if spec_opt_date(h, r, "feed_start_date"@) is Err {
            spec_opt_date(h, r, "feed_start_date"@)->Err_0
        } else {
            spec_opt_date(h, r, "feed_end_date"@)->Err_0
        }
    }

    open spec fn row_matches(h: Seq<Seq<char>>, r: Seq<Seq<char>>, v: FeedInfo) -> bool {
        &&& Ok::<_, ErrorV>(v.name@) == spec_req_str(h, r, "feed_publisher_name"@)
        &&& Ok::<_, ErrorV>(v.url@) == spec_req_str(h, r, "feed_publisher_url"@)
        &&& Ok::<_, ErrorV>(v.lang@) == spec_req_str(h, r, "feed_lang"@)
        &&& v.default_lang.deep_view() == spec_opt_str(h, r, "default_lang"@)
        &&& Ok::<_, ErrorV>(v.start_date) == spec_opt_date(h, r, "feed_start_date"@)
        &&& Ok::<_, ErrorV>(v.end_date) == spec_opt_date(h, r, "feed_end_date"@)
        &&& v.version.deep_view() == spec_opt_str(h, r, "feed_version"@)
        &&& v.contact_email.deep_view() == spec_opt_str(h, r, "feed_contact_email"@)
        &&& v.contact_url.deep_view() == spec_opt_str(h, r, "feed_contact_url"@)
    }

    fn decode_row(header: &Vec<String>, row: &Vec<String>) -> (res: Result<FeedInfo, Error>) {
        let name = match req_string(header, row, "feed_publisher_name") {
            Ok(v) => v,
            Err(e) => return Err(e),
        };
        let url = match req_string(header, row, "feed_publisher_url") {
            Ok(v) => v,
            Err(e) => return Err(e),
        };
        let lang = match req_string(header, row, "feed_lang") {
            Ok(v) => v,
            Err(e) => return Err(e),
        };
        let start_date = match opt_date(header, row, "feed_start_date") {
            Ok(v) => v,
            Err(e) => return Err(e),
        };
        let end_date = match opt_date(header, row, "feed_end_date") {
            Ok(v) => v,
            Err(e) => return Err(e),
        };
        Ok(
            FeedInfo {
                name,
                url,
                lang,
                default_lang: opt_string(header, row, "default_lang"),
                start_date,
                end_date,
                version: opt_string(header, row, "feed_version"),
                contact_email: opt_string(header, row, "feed_contact_email"),
                contact_url: opt_string(header, row, "feed_contact_url"),
            },
        )
    }
}

} // verus!
