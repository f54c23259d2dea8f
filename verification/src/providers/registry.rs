//! Host-side provider wiring: the registry of providers by identity, and
//! credential references. A reference names an environment variable at
//! most: no credential value ever enters this module.

use vstd::prelude::*;
use crate::keyed_map::KeyedMap;
use crate::text::{all_ascii_graphic, byte_len, chars_of, str_byte_len};
use crate::providers::descriptor::{ProviderHealth, descriptor_error};
use crate::providers::error::ResourceProviderError;
use crate::providers::model::ProviderId;
use crate::providers::provider::ExecutionResourceProvider;

verus! {

/// Maximum length of a credential environment-variable name.
pub const CREDENTIAL_ENV_KEY_MAX_BYTES: usize = 128;

/// A runtime configuration reference to a provider's credentials.
#[derive(Clone, Debug, PartialEq, Eq, Hash)]
pub enum ProviderCredentials {
    /// The name of the environment variable holding the provider's
    /// secret material, resolved host-side.
    EnvKey(String),
}

/// A non-empty name of at most [`CREDENTIAL_ENV_KEY_MAX_BYTES`] bytes of
/// printable non-space ASCII other than `=`.
pub open spec fn valid_env_key(name: Seq<char>) -> bool {
    &&& name.len() > 0
    &&& byte_len(name) <= CREDENTIAL_ENV_KEY_MAX_BYTES
    &&& all_ascii_graphic(name)
    &&& forall|i: int| 0 <= i < name.len() ==> #[trigger] name[i] != '='
}

impl ProviderCredentials {
    /// The referenced name.
    pub open spec fn spec_name(&self) -> Seq<char> {
        match self {
            ProviderCredentials::EnvKey(n) => n@,
        }
    }

    /// Parses an environment-variable name reference.
    pub fn parse_env_key(name: String) -> (r: Result<Self, ResourceProviderError>)
        ensures
            r is Ok <==> valid_env_key(name@),
            r matches Ok(c) ==> c.spec_name() == name@,
            r matches Err(e) ==> {
                &&& e matches ResourceProviderError::InvalidIdentifier { kind, value, reason }
                &&& kind@ == "credential env key"@
                &&& value@ == name@
                &&& reason@ == "must be a non-empty environment-variable name"@
            },
    {
        let cs = chars_of(name.as_str());
        let mut ok = true;
        let mut i: usize = 0;
        while i < cs.len()
            invariant
                cs@ == name@,
                i <= cs@.len(),
                ok == (forall|t: int| 0 <= t < i ==> ('!' <= #[trigger] cs@[t] && cs@[t] <= '~' && cs@[t] != '=')),
            decreases cs@.len() - i,
        {
            let c = cs[i];
            if !('!' <= c && c <= '~' && c != '=') {
                ok = false;
            }
            i += 1;
        }
        proof {
            if ok {
                assert forall|t: int| 0 <= t < name@.len() implies crate::text::is_ascii_graphic(#[trigger] name@[t]) by {
                    assert('!' <= cs@[t] && cs@[t] <= '~' && cs@[t] != '=');
                }
                assert forall|t: int| 0 <= t < name@.len() implies #[trigger] name@[t] != '=' by {
                    assert('!' <= cs@[t] && cs@[t] <= '~' && cs@[t] != '=');
                }
            } else {
                let t = choose|t: int| 0 <= t < cs@.len() && !('!' <= #[trigger] cs@[t] && cs@[t] <= '~' && cs@[t] != '=');
                if name@[t] == '=' {
                    assert(!(forall|u: int| 0 <= u < name@.len() ==> #[trigger] name@[u] != '='));
                } else {
                    assert(!crate::text::is_ascii_graphic(name@[t]));
                }
            }
        }
        let valid = !name.as_str().is_empty() && str_byte_len(name.as_str()) <= CREDENTIAL_ENV_KEY_MAX_BYTES && ok;
        if valid {
            Ok(ProviderCredentials::EnvKey(name))
        } else {
            Err(ResourceProviderError::InvalidIdentifier {
                kind: "credential env key",
                value: name,
                reason: "must be a non-empty environment-variable name",
            })
        }
    }

    /// The referenced environment-variable name.
    pub fn env_key_name(&self) -> (r: &str)
        ensures
            r@ == self.spec_name(),
    {
        match self {
            ProviderCredentials::EnvKey(name) => name.as_str(),
        }
    }
}

/// The host-side provider wiring registry.
///
/// Registration validates each provider's descriptor, so a malformed
/// declaration cannot mislead selection, and rejects duplicate provider
/// identities. Providers are kept in identity order.
pub struct ProviderRegistry<P> {
    providers: KeyedMap<P>,
    credentials: KeyedMap<ProviderCredentials>,
}

impl<P: ExecutionResourceProvider> ProviderRegistry<P> {
    /// The registered providers, by identity.
    pub closed spec fn spec_providers(&self) -> KeyedMap<P> {
        self.providers
    }

    /// The registered credential references, by provider identity.
    pub closed spec fn spec_credentials(&self) -> KeyedMap<ProviderCredentials> {
        self.credentials
    }

    /// Both tables are ordered, and every provider keeps its invariant and
    /// is registered under its declared identity.
    pub closed spec fn wf(&self) -> bool {
        &&& self.providers.wf()
        &&& self.credentials.wf()
        &&& forall|k: Seq<char>| #[trigger] self.providers.contains(k) ==> {
            &&& self.providers.lookup(k).unwrap().inv()
            &&& self.providers.lookup(k).unwrap().declaration().provider.spec_str() == k
        }
    }

    /// Creates an empty registry.
    pub fn new() -> (r: Self)
        ensures
            r.wf(),
            r.spec_providers().len() == 0,
            r.spec_credentials().len() == 0,
    {
        ProviderRegistry { providers: KeyedMap::new(), credentials: KeyedMap::new() }
    }

    /// Registers one provider and returns its identity. A descriptor that
    /// does not validate is refused with its reason; an identity already
    /// registered is refused as a duplicate.
    pub fn register(&mut self, provider: P) -> (r: Result<ProviderId, ResourceProviderError>)
        requires
            old(self).wf(),
            provider.inv(),
        ensures
            final(self).wf(),
            final(self).spec_credentials() == old(self).spec_credentials(),
            ({
                let id = provider.declaration().provider.spec_str();
                &&& descriptor_error(provider.declaration()) is Some ==> {
                    &&& r matches Err(ResourceProviderError::InvalidSpec { reason })
                    &&& descriptor_error(provider.declaration()) == Some(reason@)
                    &&& final(self).spec_providers() == old(self).spec_providers()
                }
                &&& descriptor_error(provider.declaration()) is None && old(self).spec_providers().contains(id) ==> {
                    &&& r matches Err(ResourceProviderError::InvalidSpec { reason })
                    &&& reason@ == "provider `"@ + id + "` is already registered"@
                    &&& final(self).spec_providers() == old(self).spec_providers()
                }
                &&& descriptor_error(provider.declaration()) is None && !old(self).spec_providers().contains(id) ==> {
                    &&& r matches Ok(pid)
                    &&& pid.spec_str() == id
                    &&& final(self).spec_providers().lookup(id) == Some(provider)
                    &&& forall|k: Seq<char>| k != id ==> #[trigger] final(self).spec_providers().lookup(k)
                        == old(self).spec_providers().lookup(k)
                    &&& final(self).spec_providers().len() == old(self).spec_providers().len() + 1
                }
            }),
    {
        let id = provider.descriptor().provider.duplicate();
        match provider.descriptor().validate() {
            Err(e) => {
                return Err(e);
            },
            Ok(()) => {},
        }
        let key = String::from_str(id.as_str());
        if self.providers.contains_key(&key) {
            let mut reason = String::from_str("provider `");
            reason.append(id.as_str());
            reason.append("` is already registered");
            proof {
                reveal_strlit("provider `");
                reveal_strlit("` is already registered");
            }
            return Err(ResourceProviderError::InvalidSpec { reason });
        }
        let ghost before = self.providers;
        let ghost registered = provider;
        let _ = self.providers.insert(key, provider);
        proof {
            assert forall|k: Seq<char>| #[trigger] self.providers.contains(k) implies {
                &&& self.providers.lookup(k).unwrap().inv()
                &&& self.providers.lookup(k).unwrap().declaration().provider.spec_str() == k
            } by {
                if k != id.spec_str() {
                    assert(before.contains(k));
                }
            }
        }
        Ok(id)
    }

    /// Registers one provider together with its credential reference.
    pub fn register_with_credentials(&mut self, provider: P, credentials: ProviderCredentials) -> (r: Result<
        ProviderId,
        ResourceProviderError,
    >)
        requires
            old(self).wf(),
            provider.inv(),
        ensures
            final(self).wf(),
            ({
                let id = provider.declaration().provider.spec_str();
                &&& (descriptor_error(provider.declaration()) is Some || old(self).spec_providers().contains(id)) ==> {
                    &&& r matches Err(ResourceProviderError::InvalidSpec { .. })
                    &&& final(self).spec_providers() == old(self).spec_providers()
                    &&& final(self).spec_credentials() == old(self).spec_credentials()
                }
                &&& descriptor_error(provider.declaration()) is None && !old(self).spec_providers().contains(id) ==> {
                    &&& r matches Ok(pid)
                    &&& pid.spec_str() == id
                    &&& final(self).spec_providers().lookup(id) == Some(provider)
                    &&& forall|k: Seq<char>| k != id ==> #[trigger] final(self).spec_providers().lookup(k)
                        == old(self).spec_providers().lookup(k)
                    &&& final(self).spec_credentials().lookup(id) == Some(credentials)
                    &&& forall|k: Seq<char>| k != id ==> #[trigger] final(self).spec_credentials().lookup(k)
                        == old(self).spec_credentials().lookup(k)
                }
            }),
    {
        let id = match self.register(provider) {
            Ok(id) => id,
            Err(e) => {
                return Err(e);
            },
        };
        let _ = self.credentials.insert(String::from_str(id.as_str()), credentials);
        Ok(id)
    }

    /// The provider registered under `id`, when wired.
    pub fn provider(&self, id: &ProviderId) -> (r: Option<&P>)
        requires
            self.wf(),
        ensures
            r is None <==> !self.spec_providers().contains(id.spec_str()),
            r matches Some(p) ==> self.spec_providers().lookup(id.spec_str()) == Some(*p),
    {
        self.providers.get(&String::from_str(id.as_str()))
    }

    /// Every registered provider identity, in identity order.
    pub fn provider_ids(&self) -> (r: Vec<ProviderId>)
        requires
            self.wf(),
        ensures
            r@.len() == self.spec_providers().len(),
            forall|i: int| 0 <= i < r@.len() ==> #[trigger] r@[i].spec_str() == self.spec_providers().key(i),
    {
        let mut ids: Vec<ProviderId> = Vec::new();
        let mut i: usize = 0;
        while i < self.providers.size()
            invariant
                self.wf(),
                i <= self.providers.len(),
                ids@.len() == i,
                forall|t: int| 0 <= t < i ==> #[trigger] ids@[t].spec_str() == self.providers.key(t),
            decreases self.providers.len() - i,
        {
            proof {
                self.providers.lemma_unique_position(i as int, self.providers.key(i as int));
            }
            let provider = self.providers.value_at(i);
            ids.push(provider.descriptor().provider.duplicate());
            i += 1;
        }
        ids
    }

    /// Number of registered providers.
    pub fn len(&self) -> (r: usize)
        ensures
            r == self.spec_providers().len(),
    {
        self.providers.size()
    }

    /// Whether no provider is registered (the ordinary default).
    pub fn is_empty(&self) -> (r: bool)
        ensures
            r == (self.spec_providers().len() == 0),
    {
        self.providers.size() == 0
    }

    /// The credential reference registered for `id`, when any.
    pub fn credentials(&self, id: &ProviderId) -> (r: Option<&ProviderCredentials>)
        requires
            self.wf(),
        ensures
            r is None <==> !self.spec_credentials().contains(id.spec_str()),
            r matches Some(c) ==> self.spec_credentials().lookup(id.spec_str()) == Some(*c),
    {
        self.credentials.get(&String::from_str(id.as_str()))
    }

    /// Probes every registered provider's live health, in identity order.
    /// Failures are collected, not short-circuited, so the fleet report is
    /// complete: each entry is that provider's own probe answer, healthy or
    /// degraded exactly when the provider is.
    pub fn probe_all(&self) -> (r: Vec<(ProviderId, Result<ProviderHealth, ResourceProviderError>)>)
        requires
            self.wf(),
        ensures
            r@.len() == self.spec_providers().len(),
            forall|i: int| 0 <= i < r@.len() ==> {
                &&& (#[trigger] r@[i]).0.spec_str() == self.spec_providers().key(i)
                &&& r@[i].1 matches Err(e) ==> e is Unreachable
                &&& (r@[i].1 matches Ok(h) && (h.status is Healthy || h.status is Degraded))
                    <==> self.spec_providers().value(i).healthy()
            },
    {
        let mut fleet: Vec<(ProviderId, Result<ProviderHealth, ResourceProviderError>)> = Vec::new();
        let mut i: usize = 0;
        while i < self.providers.size()
            invariant
                self.wf(),
                i <= self.providers.len(),
                fleet@.len() == i,
                forall|t: int| 0 <= t < i ==> {
                    &&& (#[trigger] fleet@[t]).0.spec_str() == self.providers.key(t)
                    &&& fleet@[t].1 matches Err(e) ==> e is Unreachable
                    &&& (fleet@[t].1 matches Ok(h) && (h.status is Healthy || h.status is Degraded))
                        <==> self.providers.value(t).healthy()
                },
            decreases self.providers.len() - i,
        {
            proof {
                self.providers.lemma_unique_position(i as int, self.providers.key(i as int));
            }
            let provider = self.providers.value_at(i);
            let id = provider.descriptor().provider.duplicate();
            let health = provider.probe();
            fleet.push((id, health));
            i += 1;
        }
        fleet
    }
}

impl<P: ExecutionResourceProvider> Default for ProviderRegistry<P> {
    /// An empty registry.
    fn default() -> (r: Self)
        ensures
            r.wf(),
            r.spec_providers().len() == 0,
            r.spec_credentials().len() == 0,
    {
        Self::new()
    }
}

} // verus!
