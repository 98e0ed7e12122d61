//! The variants of the compiled auth message.

use vstd::prelude::*;
use crate::proto::{ApiKeyAuth, BearerAuth, HttpAuth};

verus! {

/// Which auth scheme a compiled auth message holds.
#[derive(Debug, PartialEq)]
pub enum Kind {
    Bearer(BearerAuth),
    ApiKey(ApiKeyAuth),
    Http(HttpAuth),
}

impl Clone for Kind {
    fn clone(&self) -> (r: Self)
        ensures
            r == *self,
    {
        match self {
            Kind::Bearer(b) => Kind::Bearer(BearerAuth { token: b.token.clone() }),
            Kind::ApiKey(a) => Kind::ApiKey(ApiKeyAuth { key: a.key.clone(), name: a.name.clone(), location: a.location }),
            Kind::Http(h) => Kind::Http(
                HttpAuth {
                    scheme: h.scheme.clone(),
                    token: h.token.clone(),
                    username: h.username.clone(),
                    password: h.password.clone(),
                    prefix: h.prefix.clone(),
                },
            ),
        }
    }
}

} // verus!
