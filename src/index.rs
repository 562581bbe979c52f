use vstd::prelude::*;

verus! {

pub open spec fn default_url() -> Seq<char> {
    "http://127.0.0.1:6334"@
}

pub open spec fn default_collection() -> Seq<char> {
    "finance_chunks"@
}

/// Where the vector index is reached: its endpoint, an optional credential
/// and the collection searched.
pub struct QdrantDb {
    pub url: String,
    pub api_key: Option<String>,
    pub collection: String,
}

impl QdrantDb {
    /// Settings from optional values, each missing one taken from the local
    /// defaults (the loopback endpoint and the "finance_chunks" collection).
    pub fn new(url: Option<String>, api_key: Option<String>, collection: Option<String>) -> (r: Self)
        ensures
            r.url@ == match url {
                Some(u) => u@,
                None => default_url(),
            },
            r.api_key == api_key,
            r.collection@ == match collection {
                Some(c) => c@,
                None => default_collection(),
            },
    {
        let url = match url {
            Some(u) => u,
            None => String::from_str("http://127.0.0.1:6334"),
        };
        let collection = match collection {
            Some(c) => c,
            None => String::from_str("finance_chunks"),
        };
        QdrantDb { url, api_key, collection }
    }
}

} // verus!
