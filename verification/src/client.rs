//! The client handle: credentials, and the index handles built from
//! them.

use crate::index::Index;
use crate::strutil::lemma_seq_assoc;
use core::marker::PhantomData;
use vstd::prelude::*;
use vstd::string::StringExecFns;

verus! {

/// A handle on the remote service: the application identifier and
/// API key every request must carry.
#[derive(Debug, Clone)]
pub struct Client {
    pub application_id: Option<String>,
    pub api_key: Option<String>,
}

impl Client {
    /// A client with both credentials set.
    pub fn new(application_id: &str, api_key: &str) -> (r: Client)
        ensures
            r.application_id matches Option::Some(a) && a@ == application_id@,
            r.api_key matches Option::Some(k) && k@ == api_key@,
    {
        Client {
            application_id: Option::Some(application_id.to_owned()),
            api_key: Option::Some(api_key.to_owned()),
        }
    }

    /// The same client with the application identifier replaced.
    pub fn application_id(self, application_id: &str) -> (r: Client)
        ensures
            r.application_id matches Option::Some(a) && a@ == application_id@,
            r.api_key == self.api_key,
    {
        Client { application_id: Option::Some(application_id.to_owned()), ..self }
    }

    /// The same client with the API key replaced.
    pub fn api_key(self, api_key: &str) -> (r: Client)
        ensures
            r.api_key matches Option::Some(k) && k@ == api_key@,
            r.application_id == self.application_id,
    {
        Client { api_key: Option::Some(api_key.to_owned()), ..self }
    }

    /// The handle on one named index. Both credentials must be set
    /// before an index handle can exist; a caller without them has no
    /// usable configuration, which the original treats as fatal.
    pub fn init_index<T>(self, index_name: &str) -> (r: Index<T>)
        requires
            self.application_id is Some,
            self.api_key is Some,
        ensures
            r.application_id@ == self.application_id->0@,
            r.api_key@ == self.api_key->0@,
            r.index_name@ == index_name@,
            r.base_url@ == "https://"@ + self.application_id->0@ + "-dsn.algolia.net/1"@,
    {
        let app = match self.application_id {
            Option::Some(a) => a,
            Option::None => {
                proof {
                    assert(false);
                }
                String::new()
            },
        };
        let key = match self.api_key {
            Option::Some(k) => k,
            Option::None => {
                proof {
                    assert(false);
                }
                String::new()
            },
        };
        let mut base_url = String::new();
        base_url.append("https://");
        base_url.append(app.as_str());
        base_url.append("-dsn.algolia.net/1");
        proof {
            lemma_seq_assoc("https://"@, app@, "-dsn.algolia.net/1"@);
        }
        Index {
            application_id: app,
            api_key: key,
            index_name: index_name.to_owned(),
            base_url,
            index_type: PhantomData,
        }
    }
}

} // verus!
