//! The options of the commands, as plain values, and what they ask for.

use vstd::prelude::*;
use crate::index::TrustOrDistrust;

verus! {

/// Options of the command that stages commits.
#[derive(Debug)]
pub struct Add {
    /// A single revision or a range `from..to`.
    pub revision_range: String,
    pub trust: bool,
    pub distrust: bool,
}

/// The options do not settle on one classification.
#[derive(Debug, Clone, Copy, PartialEq, Eq, Structural)]
pub enum UsageError {
    /// Neither flag was given.
    NoClassification,
    /// Both flags were given.
    BothClassifications,
}

impl Clone for Add {
    fn clone(&self) -> (copy: Self)
        ensures
            copy == *self,
    {
        Add { revision_range: self.revision_range.clone(), trust: self.trust, distrust: self.distrust }
    }
}

impl Add {
    /// The classification that the flags ask for. Exactly one of the two
    /// flags has to be set.
    pub open spec fn asked(self) -> Result<TrustOrDistrust, UsageError> {
        if self.trust && self.distrust {
            Err(UsageError::BothClassifications)
        } else if self.trust {
            Ok(TrustOrDistrust::Trust)
        } else if self.distrust {
            Ok(TrustOrDistrust::Distrust)
        } else {
            Err(UsageError::NoClassification)
        }
    }

    /// The classification that the flags ask for.
    pub fn trust_status(&self) -> (status: Result<TrustOrDistrust, UsageError>)
        ensures
            status == self.asked(),
    {
        if self.trust && self.distrust {
            Err(UsageError::BothClassifications)
        } else if self.trust {
            Ok(TrustOrDistrust::Trust)
        } else if self.distrust {
            Ok(TrustOrDistrust::Distrust)
        } else {
            Err(UsageError::NoClassification)
        }
    }
}

impl UsageError {
    /// The message shown to the user.
    pub fn message(&self) -> (text: String)
        ensures
            text@ == "One of --trust or --distrust must be specified."@,
    {
        "One of --trust or --distrust must be specified.".to_owned()
    }
}

/// Where proofs are fetched from.
#[derive(Debug)]
pub enum Fetch {
    /// From the identities that are trusted.
    Trusted(TrustDistanceParams),
    /// From a single public proof repository.
    Url(FetchUrl),
    /// From every proof repository fetched before.
    All,
}

/// A public proof repository.
#[derive(Debug)]
pub struct FetchUrl {
    pub url: String,
}

impl Clone for FetchUrl {
    fn clone(&self) -> (copy: Self)
        ensures
            copy == *self,
    {
        FetchUrl { url: self.url.clone() }
    }
}

impl Clone for Fetch {
    fn clone(&self) -> (copy: Self)
        ensures
            copy == *self,
    {
        match self {
            Fetch::Trusted(params) => Fetch::Trusted(*params),
            Fetch::Url(source) => Fetch::Url(source.clone()),
            Fetch::All => Fetch::All,
        }
    }
}

/// How far the trust graph is walked, and what each kind of edge costs.
#[derive(Debug, Clone, Copy, PartialEq, Eq, Structural)]
pub struct TrustDistanceParams {
    /// Largest distance from the root identity.
    pub depth: u64,
    /// Cost of an edge of high trust.
    pub high_cost: u64,
    /// Cost of an edge of medium trust.
    pub medium_cost: u64,
    /// Cost of an edge of low trust.
    pub low_cost: u64,
}

impl TrustDistanceParams {
    /// The parameters used where the command line gives none.
    pub fn standard() -> (params: TrustDistanceParams)
        ensures
            params == (TrustDistanceParams { depth: 10, high_cost: 0, medium_cost: 1, low_cost: 5 }),
    {
        TrustDistanceParams { depth: 10, high_cost: 0, medium_cost: 1, low_cost: 5 }
    }
}

impl Default for TrustDistanceParams {
    fn default() -> (params: TrustDistanceParams)
        ensures
            params == (TrustDistanceParams { depth: 0, high_cost: 0, medium_cost: 0, low_cost: 0 }),
    {
        TrustDistanceParams { depth: 0, high_cost: 0, medium_cost: 0, low_cost: 0 }
    }
}

/// Options handed on to Cargo.
#[derive(Debug, Clone)]
pub struct CargoOpts {
    /// Space-separated list of features to activate.
    pub features: Option<String>,
    /// Activate all available features.
    pub all_features: bool,
    /// Do not activate the `default` feature.
    pub no_default_features: bool,
    /// The target triple.
    pub target: Option<String>,
    /// Skip dev dependencies.
    pub no_dev_dependencies: bool,
    /// Path to `Cargo.toml`.
    pub manifest_path: Option<std::path::PathBuf>,
    /// Unstable flags to Cargo.
    pub unstable_flags: Vec<String>,
}

impl Default for CargoOpts {
    fn default() -> (opts: CargoOpts)
        ensures
            opts.features is None,
            !opts.all_features,
            !opts.no_default_features,
            opts.target is None,
            !opts.no_dev_dependencies,
            opts.manifest_path is None,
            opts.unstable_flags@.len() == 0,
    {
        CargoOpts {
            features: None,
            all_features: false,
            no_default_features: false,
            target: None,
            no_dev_dependencies: false,
            manifest_path: None,
            unstable_flags: Vec::new(),
        }
    }
}

/// Options of the command that updates the registry.
#[derive(Debug, Clone)]
pub struct Update {
    pub cargo_opts: CargoOpts,
}

impl Default for Update {
    fn default() -> (update: Update)
        ensures
            update.cargo_opts.features is None,
            update.cargo_opts.target is None,
            update.cargo_opts.manifest_path is None,
            update.cargo_opts.unstable_flags@.len() == 0,
    {
        Update { cargo_opts: CargoOpts::default() }
    }
}

/// Which identities are asked for.
#[derive(Debug, Clone)]
pub enum QueryId {
    /// The current Id.
    Current,
    /// All known Ids.
    All,
    /// Own Ids.
    Own,
    /// The trusted Ids.
    Trusted { trust_params: TrustDistanceParams, for_id: Option<String> },
}

/// What is asked for.
#[derive(Debug, Clone)]
pub enum Query {
    /// Ids.
    Id(QueryId),
}

/// Options of a lookup.
#[derive(Debug, Clone)]
pub struct Lookup {
    /// Number of results.
    pub count: usize,
    /// The query to use.
    pub query: String,
}

} // verus!
