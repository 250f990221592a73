//! Registry keeping instance and provider metadata in separate stores whose
//! key sets never overlap.

use vstd::prelude::*;

use crate::external::now_unix_seconds;
use crate::strmap::StrMap;
use crate::types::{InstanceMetadata, MetadataView, ProviderType};

verus! {

/// Abstract value of provider metadata.
pub ghost struct ProviderMetaView {
    pub provider_id: Seq<char>,
    pub provider_type: ProviderType,
    pub version: Seq<char>,
    pub created_at: i64,
}

#[derive(Debug)]
pub struct ProviderMetadata {
    pub provider_id: String,
    pub provider_type: ProviderType,
    pub version: String,
    /// Creation time in unix seconds.
    pub created_at: i64,
}

impl View for ProviderMetadata {
    type V = ProviderMetaView;

    open spec fn view(&self) -> ProviderMetaView {
        ProviderMetaView {
            provider_id: self.provider_id@,
            provider_type: self.provider_type,
            version: self.version@,
            created_at: self.created_at,
        }
    }
}

impl Clone for ProviderMetadata {
    /// Cloning yields an equal record.
    fn clone(&self) -> (res: Self)
        ensures
            res == *self,
    {
        ProviderMetadata {
            provider_id: self.provider_id.clone(),
            provider_type: self.provider_type,
            version: self.version.clone(),
            created_at: self.created_at,
        }
    }
}

impl ProviderMetadata {
    pub fn new(provider_id: String, provider_type: ProviderType, version: String) -> (r: Self)
        ensures
            r@.provider_id == provider_id@,
            r@.provider_type == provider_type,
            r@.version == version@,
            r@.created_at >= 0,
    {
        ProviderMetadata { provider_id, provider_type, version, created_at: now_unix_seconds() }
    }
}

/// Separate storage for instance and provider metadata. A key used on one
/// side is refused on the other, so the two key sets stay disjoint.
pub struct MetadataRegistry {
    instances: StrMap<InstanceMetadata>,
    providers: StrMap<ProviderMetadata>,
}

impl MetadataRegistry {
    pub closed spec fn wf(&self) -> bool {
        &&& self.instances.wf()
        &&& self.providers.wf()
        &&& self.instances@.dom().disjoint(self.providers@.dom())
    }

    pub closed spec fn instances_map(&self) -> Map<Seq<char>, MetadataView> {
        Map::new(
            |k: Seq<char>| self.instances@.contains_key(k),
            |k: Seq<char>| self.instances@[k]@,
        )
    }

    pub closed spec fn providers_map(&self) -> Map<Seq<char>, ProviderMetaView> {
        Map::new(
            |k: Seq<char>| self.providers@.contains_key(k),
            |k: Seq<char>| self.providers@[k]@,
        )
    }

    pub fn new() -> (r: Self)
        ensures
            r.wf(),
            r.instances_map() =~= Map::<Seq<char>, MetadataView>::empty(),
            r.providers_map() =~= Map::<Seq<char>, ProviderMetaView>::empty(),
    {
        MetadataRegistry { instances: StrMap::new(), providers: StrMap::new() }
    }

    /// Store instance metadata under its own id. Refused (returning false)
    /// when the id is already a provider key.
    pub fn store_instance(&mut self, metadata: InstanceMetadata) -> (r: bool)
        requires
            old(self).wf(),
        ensures
            final(self).wf(),
            final(self).providers_map() == old(self).providers_map(),
            r == !old(self).providers_map().contains_key(metadata@.instance_id),
            r ==> final(self).instances_map() =~= old(self).instances_map().insert(
                metadata@.instance_id,
                metadata@,
            ),
            !r ==> final(self).instances_map() == old(self).instances_map(),
    {
        if self.providers.contains_key(metadata.instance_id.as_str()) {
            return false;
        }
        let key = metadata.instance_id.clone();
        self.instances.insert(key, metadata);
        proof {
            assert(self.instances@.dom().disjoint(self.providers@.dom()));
        }
        true
    }

    /// Store provider metadata under its own id. Refused (returning false)
    /// when the id is already an instance key.
    pub fn store_provider(&mut self, metadata: ProviderMetadata) -> (r: bool)
        requires
            old(self).wf(),
        ensures
            final(self).wf(),
            final(self).instances_map() == old(self).instances_map(),
            r == !old(self).instances_map().contains_key(metadata@.provider_id),
            r ==> final(self).providers_map() =~= old(self).providers_map().insert(
                metadata@.provider_id,
                metadata@,
            ),
            !r ==> final(self).providers_map() == old(self).providers_map(),
    {
        if self.instances.contains_key(metadata.provider_id.as_str()) {
            return false;
        }
        let key = metadata.provider_id.clone();
        self.providers.insert(key, metadata);
        proof {
            assert(self.instances@.dom().disjoint(self.providers@.dom()));
        }
        true
    }

    pub fn get_instance(&self, instance_id: &str) -> (r: Option<&InstanceMetadata>)
        requires
            self.wf(),
        ensures
            match r {
                Some(m) => self.instances_map().contains_key(instance_id@) && m@
                    == self.instances_map()[instance_id@],
                None => !self.instances_map().contains_key(instance_id@),
            },
    {
        self.instances.get(instance_id)
    }

    pub fn get_provider(&self, provider_id: &str) -> (r: Option<&ProviderMetadata>)
        requires
            self.wf(),
        ensures
            match r {
                Some(m) => self.providers_map().contains_key(provider_id@) && m@
                    == self.providers_map()[provider_id@],
                None => !self.providers_map().contains_key(provider_id@),
            },
    {
        self.providers.get(provider_id)
    }

    pub fn instances(&self) -> (r: &StrMap<InstanceMetadata>)
        requires
            self.wf(),
        ensures
            r.wf(),
            r@.dom() =~= self.instances_map().dom(),
    {
        &self.instances
    }

    pub fn providers(&self) -> (r: &StrMap<ProviderMetadata>)
        requires
            self.wf(),
        ensures
            r.wf(),
            r@.dom() =~= self.providers_map().dom(),
    {
        &self.providers
    }
}

/// Metadata separation: in any registry the instance keys and the provider
/// keys are disjoint; no key appears in both maps.
pub proof fn lemma_metadata_separation(r: &MetadataRegistry)
    requires
        r.wf(),
    ensures
        r.instances_map().dom().disjoint(r.providers_map().dom()),
        forall|k: Seq<char>| !(r.instances_map().contains_key(k)
            && r.providers_map().contains_key(k)),
{
    assert(r.instances_map().dom() =~= r.instances@.dom());
    assert(r.providers_map().dom() =~= r.providers@.dom());
    assert forall|k: Seq<char>| !(r.instances_map().contains_key(k)
        && r.providers_map().contains_key(k)) by {
        if r.instances_map().contains_key(k) && r.providers_map().contains_key(k) {
            assert(r.instances@.dom().contains(k) && r.providers@.dom().contains(k));
        }
    }
}

} // verus!
