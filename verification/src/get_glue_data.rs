//! Catalog data model: the database and table a job reads from.
//!
//! A table's storage location is an object-store URI; the policy templating in
//! `manage_iam` scopes every grant to the ARN and bucket derived from it here.
//! The catalog-listing calls that fill these values in are made by the binary.
use crate::text::{
    find_str, replace_all, spec_contains, spec_find, spec_replace, spec_starts_with,
    spec_to_lower, spec_trim_end_char, starts_with_ignore_case, trim_end_char,
};
use vstd::prelude::*;
use vstd::string::StrSliceExecFns;
use vstd::string::StringExecFns;

verus! {

/// A catalog database, pinned to the region and account it lives in.
#[derive(Clone)]
pub struct GlueDatabase {
    pub region: String,
    pub name: String,
    pub account_id: String,
}

impl GlueDatabase {
    pub fn new(region: String, account_id: String, name: String) -> (r: GlueDatabase)
        ensures
            r.region@ == region@,
            r.account_id@ == account_id@,
            r.name@ == name@,
    {
        GlueDatabase { region, account_id, name }
    }

    pub fn region(&self) -> (r: &String)
        ensures
            r@ == self.region@,
    {
        &self.region
    }

    pub fn account_id(&self) -> (r: &String)
        ensures
            r@ == self.account_id@,
    {
        &self.account_id
    }

    pub fn name(&self) -> (r: &String)
        ensures
            r@ == self.name@,
    {
        &self.name
    }

    /// One line identifying the database in a selection menu.
    pub fn format_choice(&self) -> (r: String)
        ensures
            r@ == self.name@ + " in "@ + self.region@,
    {
        let mut r = self.name.clone();
        r.append(" in ");
        r.append(self.region.as_str());
        r
    }
}

/// A catalog table together with its database and storage location.
#[derive(Clone)]
pub struct GlueTable {
    pub database: GlueDatabase,
    pub name: String,
    pub s3_location: String,
}

/// The object-store ARN for a location: the URI scheme rewritten to the ARN
/// prefix, trailing slashes stripped.
pub open spec fn spec_s3_arn(loc: Seq<char>) -> Seq<char> {
    spec_trim_end_char(spec_replace(loc, "s3://"@, "arn:aws:s3:::"@), '/')
}

/// The bucket segment of an ARN: what stands between the first `:::` and the
/// next `:::`, cut at the first `/`.
pub open spec fn spec_bucket_of_arn(arn: Seq<char>) -> Seq<char> {
    let rest = arn.skip(spec_find(arn, ":::"@) + ":::"@.len());
    let piece = if spec_contains(rest, ":::"@) {
        rest.subrange(0, spec_find(rest, ":::"@))
    } else {
        rest
    };
    if spec_contains(piece, "/"@) {
        piece.subrange(0, spec_find(piece, "/"@))
    } else {
        piece
    }
}

impl GlueTable {
    /// The storage location is handed in as fetched from the catalog.
    pub fn new(database: GlueDatabase, name: String, s3_location: String) -> (r: GlueTable)
        ensures
            r.database == database,
            r.name@ == name@,
            r.s3_location@ == s3_location@,
    {
        GlueTable { database, name, s3_location }
    }

    pub fn s3_location(&self) -> (r: &String)
        ensures
            r@ == self.s3_location@,
    {
        &self.s3_location
    }

    pub fn database(&self) -> (r: &GlueDatabase)
        ensures
            r == self.database,
    {
        &self.database
    }

    pub fn name(&self) -> (r: &String)
        ensures
            r@ == self.name@,
    {
        &self.name
    }

    /// One line identifying the table in a selection menu.
    pub fn format_choice(&self) -> (r: String)
        ensures
            r@ == self.name@,
    {
        self.name.clone()
    }

    pub fn s3_arn(&self) -> (r: String)
        ensures
            r@ == spec_s3_arn(self.s3_location@),
    {
        proof {
            reveal_strlit("s3://");
        }
        let replaced = replace_all(self.s3_location.as_str(), "s3://", "arn:aws:s3:::");
        trim_end_char(replaced.as_str(), '/')
    }

    /// The bucket named by the table's storage ARN.
    pub fn s3_bucket(&self) -> (r: String)
        requires
            spec_contains(spec_s3_arn(self.s3_location@), ":::"@),
        ensures
            r@ == spec_bucket_of_arn(spec_s3_arn(self.s3_location@)),
    {
        let arn = self.s3_arn();
        let sep_at = match find_str(arn.as_str(), ":::") {
            Some(i) => i,
            None => {
                proof {
                    assert(false);
                }
                0
            },
        };
        proof {
            reveal_strlit(":::");
        }
        let alen = arn.as_str().unicode_len();
        let rest = arn.as_str().substring_char(sep_at + 3, alen);
        proof {
            assert(rest@ =~= arn@.skip(spec_find(arn@, ":::"@) + ":::"@.len()));
        }
        let piece = match find_str(rest, ":::") {
            Some(j) => rest.substring_char(0, j),
            None => rest,
        };
        let cut = match find_str(piece, "/") {
            Some(k) => piece.substring_char(0, k),
            None => piece,
        };
        String::from_str(cut)
    }
}

/// Whether a storage location is object-store backed: it starts with the
/// `s3://` scheme, compared without regard to ASCII case.
pub fn is_s3_location(loc: &str) -> (r: bool)
    ensures
        r == spec_starts_with(spec_to_lower(loc@), spec_to_lower("s3://"@)),
{
    starts_with_ignore_case(loc, "s3://")
}

} // verus!
