//! The builder: the configuration surface of the cache, validated when the
//! cache is built.

use vstd::prelude::*;

use crate::keyexpr::{split_slash, valid_key, InvalidKeyExpr, KeyExpr};

verus! {

/// Filter on where samples or queries may come from.
#[derive(Clone, Copy, Debug, PartialEq, Eq, Structural)]
pub enum Locality {
    SessionLocal,
    Remote,
    Any,
}

impl Default for Locality {
    /// Sources are unrestricted unless narrowed.
    fn default() -> (r: Self)
        ensures
            r == Locality::Any,
    {
        Locality::Any
    }
}

/// Why `build` refused a configuration.
#[derive(Clone, Copy, Debug, PartialEq, Eq, Structural)]
pub enum ConfigError {
    /// The publication key expression is not canonical.
    InvalidPubKeyExpr,
    /// The queryable prefix is present and not canonical.
    InvalidQueryablePrefix,
}

/// A validated configuration: every key expression canonical, and the
/// queryable key expression derived from the prefix and the publication
/// key expression.
pub struct CacheConfig {
    pub pub_key_expr: KeyExpr,
    pub queryable_prefix: Option<KeyExpr>,
    pub queryable_key_expr: KeyExpr,
    pub subscriber_origin: Locality,
    pub queryable_origin: Locality,
    pub history: usize,
    pub resources_limit: Option<usize>,
}

impl CacheConfig {
    /// What `build` guarantees of every configuration it returns.
    pub open spec fn wf(&self) -> bool {
        &&& self.pub_key_expr.wf()
        &&& self.queryable_key_expr.wf()
        &&& match self.queryable_prefix {
            Option::Some(p) => p.wf() && self.queryable_key_expr@ == p@ + self.pub_key_expr@,
            Option::None => self.queryable_key_expr@ == self.pub_key_expr@,
        }
    }
}

/// The builder of a cache, carrying every setting as given; `build`
/// validates them.
pub struct ReliabilityCacheBuilder {
    pub pub_key_expr: Vec<u8>,
    pub queryable_prefix: Option<Vec<u8>>,
    pub subscriber_origin: Locality,
    pub queryable_origin: Locality,
    pub history: usize,
    pub resources_limit: Option<usize>,
}

impl ReliabilityCacheBuilder {
    /// A builder for a cache over the given publication key expression:
    /// no prefix, unrestricted origins, a history of 1024 samples per key,
    /// and no bound on distinct keys.
    pub fn new(pub_key_expr: Vec<u8>) -> (b: Self)
        ensures
            b.pub_key_expr@ == pub_key_expr@,
            b.queryable_prefix is None,
            b.subscriber_origin == Locality::Any,
            b.queryable_origin == Locality::Any,
            b.history == 1024,
            b.resources_limit is None,
    {
        ReliabilityCacheBuilder {
            pub_key_expr,
            queryable_prefix: Option::None,
            subscriber_origin: Locality::Any,
            queryable_origin: Locality::Any,
            history: 1024,
            resources_limit: Option::None,
        }
    }

    /// Change the prefix under which the cache stores and answers.
    pub fn queryable_prefix(self, queryable_prefix: Vec<u8>) -> (b: Self)
        ensures
            b.pub_key_expr@ == self.pub_key_expr@,
            b.queryable_prefix matches Some(p) && p@ == queryable_prefix@,
            b.subscriber_origin == self.subscriber_origin,
            b.queryable_origin == self.queryable_origin,
            b.history == self.history,
            b.resources_limit == self.resources_limit,
    {
        ReliabilityCacheBuilder { queryable_prefix: Option::Some(queryable_prefix), ..self }
    }

    /// Restrict which publications the cache stores to those of the given
    /// origin.
    pub fn subscriber_allowed_origin(self, origin: Locality) -> (b: Self)
        ensures
            b.pub_key_expr@ == self.pub_key_expr@,
            b.queryable_prefix == self.queryable_prefix,
            b.subscriber_origin == origin,
            b.queryable_origin == self.queryable_origin,
            b.history == self.history,
            b.resources_limit == self.resources_limit,
    {
        ReliabilityCacheBuilder { subscriber_origin: origin, ..self }
    }

    /// Restrict which queries the cache answers to those of the given
    /// origin.
    pub fn queryable_allowed_origin(self, origin: Locality) -> (b: Self)
        ensures
            b.pub_key_expr@ == self.pub_key_expr@,
            b.queryable_prefix == self.queryable_prefix,
            b.subscriber_origin == self.subscriber_origin,
            b.queryable_origin == origin,
            b.history == self.history,
            b.resources_limit == self.resources_limit,
    {
        ReliabilityCacheBuilder { queryable_origin: origin, ..self }
    }

    /// Change the number of samples kept per stored key.
    pub fn history(self, history: usize) -> (b: Self)
        ensures
            b.pub_key_expr@ == self.pub_key_expr@,
            b.queryable_prefix == self.queryable_prefix,
            b.subscriber_origin == self.subscriber_origin,
            b.queryable_origin == self.queryable_origin,
            b.history == history,
            b.resources_limit == self.resources_limit,
    {
        ReliabilityCacheBuilder { history, ..self }
    }

    /// Bound the number of distinct stored keys.
    pub fn resources_limit(self, limit: usize) -> (b: Self)
        ensures
            b.pub_key_expr@ == self.pub_key_expr@,
            b.queryable_prefix == self.queryable_prefix,
            b.subscriber_origin == self.subscriber_origin,
            b.queryable_origin == self.queryable_origin,
            b.history == self.history,
            b.resources_limit matches Some(l) && l == limit,
    {
        ReliabilityCacheBuilder { resources_limit: Option::Some(limit), ..self }
    }

    /// Validate the settings. Succeeds exactly when the publication key
    /// expression is canonical and the prefix, when present, is canonical
    /// too; the queryable key expression is then the prefix joined with
    /// the publication key expression. Nothing is declared on failure.
    pub fn build(self) -> (r: Result<CacheConfig, ConfigError>)
        ensures
            r is Ok <==> valid_key(split_slash(self.pub_key_expr@)) && (match self
                .queryable_prefix {
                Option::Some(p) => valid_key(split_slash(p@)),
                Option::None => true,
            }),
            r matches Ok(c) ==> {
                &&& c.wf()
                &&& c.pub_key_expr@ == split_slash(self.pub_key_expr@)
                &&& match self.queryable_prefix {
                    Option::Some(pb) => c.queryable_prefix matches Some(p) && p@ == split_slash(
                        pb@,
                    ) && c.queryable_key_expr@ == split_slash(pb@) + split_slash(
                        self.pub_key_expr@,
                    ),
                    Option::None => c.queryable_prefix is None && c.queryable_key_expr@
                        == split_slash(self.pub_key_expr@),
                }
                &&& c.subscriber_origin == self.subscriber_origin
                &&& c.queryable_origin == self.queryable_origin
                &&& c.history == self.history
                &&& c.resources_limit == self.resources_limit
            },
            r matches Err(e) ==> (e == ConfigError::InvalidPubKeyExpr <==> !valid_key(
                split_slash(self.pub_key_expr@),
            )),
    {
        let ReliabilityCacheBuilder {
            pub_key_expr,
            queryable_prefix,
            subscriber_origin,
            queryable_origin,
            history,
            resources_limit,
        } = self;
        let pk = match KeyExpr::new(&pub_key_expr) {
            Result::Ok(k) => k,
            Result::Err(InvalidKeyExpr) => {
                return Result::Err(ConfigError::InvalidPubKeyExpr);
            },
        };
        match queryable_prefix {
            Option::None => Result::Ok(
                CacheConfig {
                    queryable_key_expr: pk.clone(),
                    pub_key_expr: pk,
                    queryable_prefix: Option::None,
                    subscriber_origin,
                    queryable_origin,
                    history,
                    resources_limit,
                },
            ),
            Option::Some(pb) => {
                let p = match KeyExpr::new(&pb) {
                    Result::Ok(k) => k,
                    Result::Err(InvalidKeyExpr) => {
                        return Result::Err(ConfigError::InvalidQueryablePrefix);
                    },
                };
                let queryable_key_expr = p.join(&pk);
                Result::Ok(
                    CacheConfig {
                        pub_key_expr: pk,
                        queryable_prefix: Option::Some(p),
                        queryable_key_expr,
                        subscriber_origin,
                        queryable_origin,
                        history,
                        resources_limit,
                    },
                )
            },
        }
    }
}

} // verus!
