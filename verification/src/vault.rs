//! Software-managed key vaults (privacy tiers 0 and 1): their configuration, the file layout of
//! stored keys, and the SIM binding of key material.
use vstd::prelude::*;

use crate::text::concat;

verus! {

/// The kind of vault and what locates it.
#[derive(Debug, Clone, PartialEq, Eq)]
pub enum VaultType {
    File { path: String },
    Sim { eid: String },
    GpuCc { device_id: u32 },
    GpuTeeIo { device_id: u32, mig_instance: Option<u32> },
}

/// Configuration for a vault.
#[derive(Debug, Clone, PartialEq, Eq)]
pub struct VaultConfig {
    pub vault_type: VaultType,
    pub kms_url: Option<String>,
    pub kbs_url: Option<String>,
}

/// Tier 1: a file-based vault with at-rest encryption by the key management service `K`.
pub struct FileVault<K> {
    kms: K,
    base_path: String,
    tenant_id: String,
}

impl<K> FileVault<K> {
    /// The key management service that wraps the stored keys.
    pub closed spec fn kms_spec(&self) -> K {
        self.kms
    }

    /// The directory that holds the vault's key files.
    pub closed spec fn base_path_spec(&self) -> Seq<char> {
        self.base_path@
    }

    /// The tenant whose keys the vault holds.
    pub closed spec fn tenant_id_spec(&self) -> Seq<char> {
        self.tenant_id@
    }

    /// Create a file vault over `base_path` for `tenant_id`.
    pub fn new(kms: K, base_path: &str, tenant_id: String) -> (r: Self)
        ensures
            r.kms_spec() == kms,
            r.base_path_spec() == base_path@,
            r.tenant_id_spec() == tenant_id@,
    {
        FileVault { kms, base_path: base_path.to_owned(), tenant_id }
    }

    /// The key management service.
    pub fn kms(&self) -> (r: &K)
        ensures
            *r == self.kms_spec(),
    {
        &self.kms
    }

    /// The directory that holds the key files.
    pub fn base_path(&self) -> (r: &str)
        ensures
            r@ == self.base_path_spec(),
    {
        self.base_path.as_str()
    }

    /// The tenant.
    pub fn tenant_id(&self) -> (r: &str)
        ensures
            r@ == self.tenant_id_spec(),
    {
        self.tenant_id.as_str()
    }

    /// The name of the file, inside the base directory, that holds the key `key_id`.
    pub fn key_file_name(key_id: &str) -> (r: String)
        ensures
            r@ == key_id@ + ".key"@,
    {
        concat(key_id, ".key")
    }
}

/// The BLAKE3 hash (32 bytes) of a byte sequence.
pub uninterp spec fn blake3_digest(data: Seq<u8>) -> Seq<u8>;

/// Calls `blake3::Hasher::new`, `update` with `first`, `update` with `second` and
/// `finalize`. The crate documents that incremental updates hash the concatenation of what was
/// fed, so the result is named `blake3_digest` of `first` followed by `second`; a BLAKE3 hash
/// is 32 bytes (`blake3::OUT_LEN`).
#[verifier::external_body]
fn blake3_of_two(first: &[u8], second: &[u8]) -> (r: Vec<u8>)
    ensures
        r@ == blake3_digest(first@ + second@),
        r@.len() == 32,
{
    let mut hasher = blake3::Hasher::new();
    hasher.update(first);
    hasher.update(second);
    hasher.finalize().as_bytes().to_vec()
}

/// Tier 1+: a SIM-based vault whose keys are bound to the SIM's EID, stored through a
/// file vault.
pub struct SimVault<K> {
    kms: K,
    sim_eid: String,
    file_vault: FileVault<K>,
}

impl<K: Clone> SimVault<K> {
    /// The SIM's EID.
    pub closed spec fn sim_eid_spec(&self) -> Seq<char> {
        self.sim_eid@
    }

    /// The vault's own handle on the key management service.
    pub closed spec fn kms_spec(&self) -> K {
        self.kms
    }

    /// The file vault that stores the SIM-bound keys.
    pub closed spec fn file_vault_spec(&self) -> &FileVault<K> {
        &self.file_vault
    }

    /// Create a SIM vault for the SIM `sim_eid`, storing through a file vault over `base_path`.
    pub fn new(kms: K, base_path: &str, tenant_id: String, sim_eid: String) -> (r: Self)
        ensures
            r.sim_eid_spec() == sim_eid@,
            cloned::<K>(kms, r.kms_spec()),
            r.file_vault_spec().kms_spec() == kms,
            r.file_vault_spec().base_path_spec() == base_path@,
            r.file_vault_spec().tenant_id_spec() == tenant_id@,
    {
        let own = kms.clone();
        SimVault { kms: own, sim_eid, file_vault: FileVault::new(kms, base_path, tenant_id) }
    }

    /// The file vault that stores the SIM-bound keys.
    pub fn file_vault(&self) -> (r: &FileVault<K>)
        ensures
            *r == *self.file_vault_spec(),
    {
        &self.file_vault
    }

    /// The SIM's EID.
    pub fn sim_eid(&self) -> (r: &str)
        ensures
            r@ == self.sim_eid_spec(),
    {
        self.sim_eid.as_str()
    }

    /// Bind key material to the SIM: the BLAKE3 hash of the key data followed by the UTF-8
    /// bytes of the EID.
    pub fn bind_to_sim(&self, key_data: &[u8]) -> (r: Vec<u8>)
        ensures
            r@ == blake3_digest(key_data@ + vstd::utf8::encode_utf8(self.sim_eid_spec())),
            r@.len() == 32,
    {
        blake3_of_two(key_data, self.sim_eid.as_str().as_bytes())
    }
}

} // verus!
