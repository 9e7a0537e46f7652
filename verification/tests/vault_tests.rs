use hanzo_sdk::vault::{FileVault, SimVault, VaultConfig, VaultType};

#[test]
fn file_vault_layout() {
    let v = FileVault::new(7u8, "/var/keys", "tenant-a".to_string());
    assert_eq!(*v.kms(), 7);
    assert_eq!(v.base_path(), "/var/keys");
    assert_eq!(v.tenant_id(), "tenant-a");
    assert_eq!(FileVault::<u8>::key_file_name("k1"), "k1.key");
}

#[test]
fn sim_binding_is_blake3_of_key_and_eid() {
    let v = SimVault::new(1u8, "/keys", "t".to_string(), "89049032".to_string());
    assert_eq!(v.sim_eid(), "89049032");
    assert_eq!(v.file_vault().base_path(), "/keys");
    let bound = v.bind_to_sim(b"secret");
    assert_eq!(bound.len(), 32);
    assert_eq!(bound, blake3::hash(b"secret89049032").as_bytes().to_vec());
    assert_ne!(bound, v.bind_to_sim(b"secreT"));
}

#[test]
fn vault_config_values() {
    let c = VaultConfig {
        vault_type: VaultType::GpuTeeIo { device_id: 0, mig_instance: Some(2) },
        kms_url: None,
        kbs_url: Some("https://kbs".to_string()),
    };
    assert_eq!(c.clone(), c);
    assert_ne!(VaultType::File { path: "a".into() }, VaultType::Sim { eid: "a".into() });
}
