//! The access policy: which request methods are allowed, and which
//! origins may read responses.
use vstd::prelude::*;

verus! {

use crate::status::ServerError;
use crate::text::ascii_of;
use crate::text::bytes_eq;
use crate::text::bytes_starts_with;
use crate::text::eq_lit;
use crate::text::lemma_seqs_view;

/// Whether a token is one of the nine HTTP request methods.
pub open spec fn is_http_method(m: Seq<u8>) -> bool {
    ||| m == ascii_of("GET")
    ||| m == ascii_of("HEAD")
    ||| m == ascii_of("POST")
    ||| m == ascii_of("PUT")
    ||| m == ascii_of("DELETE")
    ||| m == ascii_of("CONNECT")
    ||| m == ascii_of("OPTIONS")
    ||| m == ascii_of("TRACE")
    ||| m == ascii_of("PATCH")
}

/// A request buffer carries an allowed method when it starts with one of
/// the configured method tokens.
pub open spec fn spec_method_allowed(buf: Seq<u8>, methods: Seq<Seq<u8>>) -> bool {
    exists|i: int| 0 <= i < methods.len() && (#[trigger] methods[i]).is_prefix_of(buf)
}

/// Whether an origin list names an origin.
pub open spec fn origin_listed(origin: Seq<u8>, os: Seq<Seq<u8>>) -> bool {
    exists|i: int| 0 <= i < os.len() && #[trigger] os[i] == origin
}

/// An origin is allowed when the policy allows every origin or lists it.
pub open spec fn spec_origin_allowed(origin: Seq<u8>, origins: Option<Seq<Seq<u8>>>) -> bool {
    origins is Some ==> origin_listed(origin, origins->Some_0)
}

/// The configured access policy: allowed method tokens, and allowed
/// origins where `None` means every origin is allowed.
pub struct Cors {
    pub allowed_methods: Option<Vec<Vec<u8>>>,
    pub allowed_origins: Option<Vec<Vec<u8>>>,
}

impl Cors {
    /// The method tokens, for specifications.
    pub open spec fn methods_spec(&self) -> Option<Seq<Seq<u8>>> {
        match self.allowed_methods {
            Some(ref ms) => Some(ms.deep_view()),
            None => None,
        }
    }

    /// The allowed origins, for specifications.
    pub open spec fn origins_spec(&self) -> Option<Seq<Seq<u8>>> {
        match self.allowed_origins {
            Some(ref os) => Some(os.deep_view()),
            None => None,
        }
    }

    /// Build the policy. The configuration must name at least one method,
    /// and must either allow all origins or name at least one; a method
    /// token that is not an HTTP method is reported as an error.
    pub fn new(allowed_origins: Vec<Vec<u8>>, allow_all_origins: bool, allowed_methods: Vec<
        Vec<u8>,
    >) -> (r: Result<Self, ServerError>)
        requires
            allowed_origins.deep_view().len() > 0 || allow_all_origins,
            allowed_methods.deep_view().len() > 0,
        ensures
            r is Ok <==> (forall|i: int|
                0 <= i < allowed_methods.deep_view().len() ==> is_http_method(
                    #[trigger] allowed_methods.deep_view()[i],
                )),
            r is Err ==> r->Err_0 == ServerError::CorsError,
            r is Ok ==> r->Ok_0.methods_spec() == Some(allowed_methods.deep_view()),
            r is Ok ==> r->Ok_0.origins_spec() == (if allowed_origins.deep_view().len() == 0 {
                None::<Seq<Seq<u8>>>
            } else {
                Some(allowed_origins.deep_view())
            }),
    {
        proof {
            lemma_seqs_view(allowed_methods);
            lemma_seqs_view(allowed_origins);
            reveal_strlit("GET");
            reveal_strlit("HEAD");
            reveal_strlit("POST");
            reveal_strlit("PUT");
            reveal_strlit("DELETE");
            reveal_strlit("CONNECT");
            reveal_strlit("OPTIONS");
            reveal_strlit("TRACE");
            reveal_strlit("PATCH");
        }
        let mut i: usize = 0;
        while i < allowed_methods.len()
            invariant
                0 <= i <= allowed_methods@.len(),
                allowed_methods.deep_view().len() == allowed_methods@.len(),
                forall|j: int|
                    0 <= j < allowed_methods@.len() ==> #[trigger] allowed_methods.deep_view()[j]
                        == allowed_methods@[j]@,
                forall|j: int|
                    0 <= j < i ==> is_http_method(#[trigger] allowed_methods.deep_view()[j]),
            decreases allowed_methods@.len() - i,
        {
            proof {
                reveal_strlit("GET");
                reveal_strlit("HEAD");
                reveal_strlit("POST");
                reveal_strlit("PUT");
                reveal_strlit("DELETE");
                reveal_strlit("CONNECT");
                reveal_strlit("OPTIONS");
                reveal_strlit("TRACE");
                reveal_strlit("PATCH");
            }
            let m = &allowed_methods[i];
            let ok = eq_lit(m, "GET") || eq_lit(m, "HEAD") || eq_lit(m, "POST") || eq_lit(m, "PUT")
                || eq_lit(m, "DELETE") || eq_lit(m, "CONNECT") || eq_lit(m, "OPTIONS") || eq_lit(
                m,
                "TRACE",
            ) || eq_lit(m, "PATCH");
            if !ok {
                proof {
                    assert(!is_http_method(allowed_methods.deep_view()[i as int]));
                }
                return Err(ServerError::CorsError);
            }
            proof {
                assert(is_http_method(allowed_methods.deep_view()[i as int]));
            }
            i = i + 1;
        }
        let origins = if allowed_origins.len() == 0 {
            None
        } else {
            Some(allowed_origins)
        };
        Ok(Cors { allowed_methods: Some(allowed_methods), allowed_origins: origins })
    }

    /// Whether the request buffer starts with one of the allowed method
    /// tokens.
    pub fn method_is_allowed(&self, buf: &Vec<u8>) -> (r: bool)
        requires
            self.methods_spec() is Some,
        ensures
            r == spec_method_allowed(buf@, self.methods_spec()->Some_0),
    {
        let methods = self.allowed_methods.as_ref().unwrap();
        proof {
            lemma_seqs_view(*methods);
        }
        let ghost ms = self.methods_spec()->Some_0;
        let mut i: usize = 0;
        while i < methods.len()
            invariant
                0 <= i <= methods@.len(),
                ms == methods.deep_view(),
                self.methods_spec() == Some(ms),
                ms.len() == methods@.len(),
                forall|j: int| 0 <= j < methods@.len() ==> #[trigger] ms[j] == methods@[j]@,
                forall|j: int| 0 <= j < i ==> !(#[trigger] ms[j]).is_prefix_of(buf@),
            decreases methods@.len() - i,
        {
            if bytes_starts_with(buf, &methods[i]) {
                proof {
                    assert(ms[i as int].is_prefix_of(buf@));
                }
                return true;
            }
            i = i + 1;
        }
        false
    }

    /// Whether an origin is allowed to read responses.
    pub fn origin_is_allowed(&self, origin: &Vec<u8>) -> (r: bool)
        ensures
            r == spec_origin_allowed(origin@, self.origins_spec()),
    {
        let origins = match &self.allowed_origins {
            None => {
                return true;
            },
            Some(os) => os,
        };
        proof {
            lemma_seqs_view(*origins);
        }
        let ghost os = self.origins_spec()->Some_0;
        let mut i: usize = 0;
        while i < origins.len()
            invariant
                0 <= i <= origins@.len(),
                os == origins.deep_view(),
                self.origins_spec() == Some(os),
                os.len() == origins@.len(),
                forall|j: int| 0 <= j < origins@.len() ==> #[trigger] os[j] == origins@[j]@,
                forall|j: int| 0 <= j < i ==> #[trigger] os[j] != origin@,
            decreases origins@.len() - i,
        {
            if bytes_eq(&origins[i], origin) {
                proof {
                    assert(origin_listed(origin@, os)) by {
                        assert((i as int) < os.len() && os[i as int] == origin@);
                    }
                }
                return true;
            }
            i = i + 1;
        }
        false
    }
}

} // verus!
