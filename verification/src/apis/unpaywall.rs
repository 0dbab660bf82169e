//! Requests to the open-access lookup service.

use vstd::prelude::*;
use vstd::string::StringExecFns;

verus! {

/// Where the lookup service answers.
pub const BASE_URL: &'static str = "https://api.unpaywall.org/v2";

/// The address that asks for the open-access copy of `doi` on behalf of
/// `email`.
pub open spec fn lookup_address(doi: Seq<char>, email: Seq<char>) -> Seq<char> {
    BASE_URL@ + "/"@ + doi + "?email="@ + email
}

/// A configured client of the lookup service: it knows on whose behalf it
/// asks.
#[derive(Debug, Clone)]
pub struct UnpaywallClient {
    email: String,
}

impl UnpaywallClient {
    /// The address on whose behalf the client asks.
    pub closed spec fn contact(&self) -> Seq<char> {
        self.email@
    }

    /// A client that asks on behalf of `email`.
    pub fn new(email: String) -> (client: UnpaywallClient)
        ensures
            client.contact() == email@,
    {
        UnpaywallClient { email }
    }

    /// The address on whose behalf the client asks.
    pub fn email(&self) -> (email: &String)
        ensures
            email@ == self.contact(),
    {
        &self.email
    }

    /// The address to fetch for the open-access copy of `doi`.
    pub fn request_url(&self, doi: &str) -> (url: String)
        ensures
            url@ == lookup_address(doi@, self.contact()),
    {
        let mut url = String::from_str(BASE_URL);
        url.append("/");
        url.append(doi);
        url.append("?email=");
        url.append(self.email.as_str());
        url
    }
}

} // verus!
