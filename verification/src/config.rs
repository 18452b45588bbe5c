//! A job's endpoint map, validated on construction and on every change made through it.

use vstd::prelude::*;
use crate::endpoint::{endpoint_check, HttpEndpoint};
use crate::error::{
    first_error, lemma_first_error_none, lemma_first_error_prefix, lemma_first_error_step, reports,
    ConfigError, ErrorView,
};
use crate::strmap::{has_key, insert_all, insert_entry, key_index, remove_entry, StringMap};

verus! {

/// The check of one named endpoint: its first fault, wrapped with its name.
pub open spec fn named_endpoint_check(entry: (String, HttpEndpoint)) -> Option<ErrorView> {
    match endpoint_check(entry.1@) {
        None => None,
        Some(x) => Some(ErrorView::InvalidEndpoint { name: entry.0@, cause: Box::new(x) }),
    }
}

/// The first invalid endpoint of an endpoint list, if any, as the error reported for it.
pub open spec fn config_check(entries: Seq<(String, HttpEndpoint)>) -> Option<ErrorView> {
    first_error(entries.map_values(|e: (String, HttpEndpoint)| named_endpoint_check(e)))
}

/// A list passes the configuration check exactly when every endpoint of it is valid.
pub proof fn lemma_config_check_all(entries: Seq<(String, HttpEndpoint)>)
    ensures
        config_check(entries) is None <==> forall|i: int|
            0 <= i < entries.len() ==> endpoint_check(#[trigger] entries[i].1@) is None,
{
    let checks = entries.map_values(|e: (String, HttpEndpoint)| named_endpoint_check(e));
    lemma_first_error_none(checks);
    if config_check(entries) is None {
        assert forall|i: int| 0 <= i < entries.len() implies endpoint_check(
            #[trigger] entries[i].1@,
        ) is None by {
            assert(checks[i] is None);
        }
    }
    if forall|i: int| 0 <= i < entries.len() ==> endpoint_check(#[trigger] entries[i].1@) is None {
        assert forall|i: int| 0 <= i < checks.len() implies checks[i] is None by {
            assert(endpoint_check(entries[i].1@) is None);
        }
    }
}

/// Inserting or replacing a valid endpoint keeps a valid configuration valid.
pub proof fn law_insert_keeps_config_valid(
    entries: Seq<(String, HttpEndpoint)>,
    name: String,
    endpoint: HttpEndpoint,
)
    requires
        config_check(entries) is None,
        endpoint_check(endpoint@) is None,
    ensures
        config_check(insert_entry(entries, name, endpoint)) is None,
{
    lemma_config_check_all(entries);
    lemma_config_check_all(insert_entry(entries, name, endpoint));
    let t = insert_entry(entries, name, endpoint);
    assert forall|i: int| 0 <= i < t.len() implies endpoint_check(#[trigger] t[i].1@) is None by {
        if has_key(entries, name@) {
            if i != key_index(entries, name@) {
                assert(t[i] == entries[i]);
            }
        } else if i < entries.len() {
            assert(t[i] == entries[i]);
        }
    }
}

/// Applying a list of valid overrides keeps a valid configuration valid.
pub proof fn law_overrides_keep_config_valid(
    entries: Seq<(String, HttpEndpoint)>,
    overrides: Seq<(String, HttpEndpoint)>,
)
    requires
        config_check(entries) is None,
        config_check(overrides) is None,
    ensures
        config_check(insert_all(entries, overrides)) is None,
    decreases overrides.len(),
{
    if overrides.len() > 0 {
        let init = overrides.drop_last();
        lemma_config_check_all(overrides);
        lemma_config_check_all(init);
        assert forall|i: int| 0 <= i < init.len() implies endpoint_check(#[trigger] init[i].1@) is None by {
            assert(init[i] == overrides[i]);
        }
        law_overrides_keep_config_valid(entries, init);
        assert(endpoint_check(overrides[overrides.len() - 1].1@) is None);
        law_insert_keeps_config_valid(
            insert_all(entries, init),
            overrides.last().0,
            overrides.last().1,
        );
    }
}

/// Removing an endpoint keeps a valid configuration valid.
pub proof fn law_remove_keeps_config_valid(entries: Seq<(String, HttpEndpoint)>, name: Seq<char>)
    requires
        config_check(entries) is None,
    ensures
        config_check(remove_entry(entries, name)) is None,
{
    lemma_config_check_all(entries);
    let t = remove_entry(entries, name);
    lemma_config_check_all(t);
    if has_key(entries, name) {
        let idx = key_index(entries, name);
        assert forall|i: int| 0 <= i < t.len() implies endpoint_check(#[trigger] t[i].1@) is None by {
            let i0 = if i < idx { i } else { i + 1 };
            assert(t[i] == entries[i0]);
        }
    }
}

/// Serializable runtime data handed to a job.
///
/// This is intended to be supplied per job so workers remain stateless and horizontally scalable.
#[derive(Clone, Debug)]
pub struct MechanicsConfig {
    endpoints: StringMap<HttpEndpoint>,
}

impl View for MechanicsConfig {
    type V = Seq<(String, HttpEndpoint)>;

    closed spec fn view(&self) -> Seq<(String, HttpEndpoint)> {
        self.endpoints@
    }
}

/// Checks every endpoint of a list, in order.
fn check_endpoints(entries: &[(String, HttpEndpoint)]) -> (r: Result<(), ConfigError>)
    ensures
        reports(r, config_check(entries@)),
{
    let ghost checks = entries@.map_values(|e: (String, HttpEndpoint)| named_endpoint_check(e));
    let mut i: usize = 0;
    while i < entries.len()
        invariant
            i <= entries@.len(),
            checks == entries@.map_values(|e: (String, HttpEndpoint)| named_endpoint_check(e)),
            first_error(checks.take(i as int)) is None,
        decreases entries@.len() - i,
    {
        proof {
            lemma_first_error_step(checks, i as int);
        }
        if let Err(e) = check_named(&entries[i].0, &entries[i].1) {
            proof {
                lemma_first_error_prefix(checks, i + 1);
            }
            return Err(e);
        }
        i = i + 1;
    }
    assert(checks.take(i as int) =~= checks);
    Ok(())
}

fn check_endpoint(endpoint: &HttpEndpoint) -> (r: Result<(), ConfigError>)
    ensures
        reports(r, endpoint_check(endpoint@)),
{
    endpoint.validate_config()
}

/// Checks one endpoint and names it in the error.
fn check_named(name: &String, endpoint: &HttpEndpoint) -> (r: Result<(), ConfigError>)
    ensures
        reports(r, named_endpoint_check((*name, *endpoint))),
{
    match check_endpoint(endpoint) {
        Ok(()) => Ok(()),
        Err(cause) => Err(ConfigError::InvalidEndpoint { name: name.clone(), cause: Box::new(cause) }),
    }
}

impl MechanicsConfig {
    /// Builds runtime state from endpoint definitions, validating every endpoint.
    ///
    /// Provide the complete endpoint map needed by a job; workers do not maintain shared
    /// endpoint cache state across jobs.
    pub fn new(endpoints: StringMap<HttpEndpoint>) -> (r: Result<Self, ConfigError>)
        ensures
            match r {
                Ok(c) => config_check(endpoints@) is None && c@ == endpoints@,
                Err(e) => reports(Err(e), config_check(endpoints@)),
            },
    {
        match check_endpoints(endpoints.entries()) {
            Ok(()) => Ok(MechanicsConfig { endpoints }),
            Err(e) => Err(e),
        }
    }

    /// Validates all configured endpoints.
    ///
    /// This method does not cache across jobs; it only checks consistency for the supplied
    /// configuration object.
    pub fn validate(&self) -> (r: Result<(), ConfigError>)
        ensures
            reports(r, config_check(self@)),
    {
        check_endpoints(self.endpoints.entries())
    }

    /// Returns all configured endpoints.
    pub fn endpoints(&self) -> (m: &StringMap<HttpEndpoint>)
        ensures
            m@ == self@,
    {
        &self.endpoints
    }

    /// Returns a mutable reference to all configured endpoints.
    pub fn endpoints_mut(&mut self) -> (m: &mut StringMap<HttpEndpoint>)
        ensures
            m@ == old(self)@,
            final(self)@ == final(m)@,
    {
        &mut self.endpoints
    }

    /// Returns a new config with one endpoint inserted or replaced after validation.
    pub fn with_endpoint(self, name: String, endpoint: HttpEndpoint) -> (r: Result<Self, ConfigError>)
        ensures
            match r {
                Ok(c) => endpoint_check(endpoint@) is None && c@ == insert_entry(self@, name, endpoint),
                Err(e) => reports(Err(e), named_endpoint_check((name, endpoint))),
            },
    {
        if let Err(e) = check_named(&name, &endpoint) {
            return Err(e);
        }
        let mut endpoints = self.endpoints;
        endpoints.insert(name, endpoint);
        Ok(MechanicsConfig { endpoints })
    }

    /// Returns a new config with all endpoint overrides validated and applied.
    ///
    /// Existing endpoints with matching names are replaced; other endpoints are retained.
    pub fn with_endpoint_overrides(self, overrides: StringMap<HttpEndpoint>) -> (r: Result<
        Self,
        ConfigError,
    >)
        ensures
            match r {
                Ok(c) => config_check(overrides@) is None && c@ == insert_all(self@, overrides@),
                Err(e) => reports(Err(e), config_check(overrides@)),
            },
    {
        if let Err(e) = check_endpoints(overrides.entries()) {
            return Err(e);
        }
        let ghost start = self@;
        let ghost all = overrides@;
        let mut endpoints = self.endpoints;
        let mut rest = overrides.into_entries();
        let total = rest.len();
        let mut n: usize = 0;
        while rest.len() > 0
            invariant
                total == all.len(),
                n + rest@.len() == all.len(),
                rest@ == all.skip(n as int),
                endpoints@ == insert_all(start, all.take(n as int)),
            decreases rest@.len(),
        {
            let (name, endpoint) = rest.remove(0);
            assert(rest@ =~= all.skip(n + 1));
            proof {
                assert(all.take(n + 1).drop_last() =~= all.take(n as int));
            }
            endpoints.insert(name, endpoint);
            n = n + 1;
        }
        assert(all.take(n as int) =~= all);
        Ok(MechanicsConfig { endpoints })
    }

    /// Returns a new config with one endpoint removed, if present.
    pub fn without_endpoint(self, name: &str) -> (c: Self)
        ensures
            c@ == remove_entry(self@, name@),
    {
        let mut endpoints = self.endpoints;
        endpoints.remove(name);
        MechanicsConfig { endpoints }
    }
}

} // verus!
