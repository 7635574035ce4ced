use lfi_vsa_core::adversary::{adversary_identity, IdentityDraws};

fn draws() -> IdentityDraws {
    IdentityDraws {
        vendor: 16 + 3,
        ssid_template: 4,
        variant: 6,
        radio0_nic: (0x01, 0xAB, 0xFF),
        radio1_nic: (0x10, 0x00, 0x2C),
        radio0_channel: 2,
        radio1_channel: 4,
        tx_power: 5,
        radio_ssid_number: 100,
        filter_ssid_number: 7,
        hostname_number: 900,
    }
}

#[test]
fn tier1_keeps_factory_identity() {
    let id = adversary_identity(1, "s-1", None, &draws());
    assert_eq!(id.tier, 1);
    assert_eq!(id.session_id, "s-1");
    assert_eq!(id.authorization_basis, "controlled_home_lab");
    assert_eq!(id.vendor, "Hak5");
    assert_eq!(id.hostname, "mk7");
    assert_eq!(id.radios[0].mac, "00:13:37:01:AB:FF");
    assert_eq!(id.radios[1].mac, "00:13:37:10:00:2C");
    assert_eq!(id.radios[0].ssid, "Pineapple_2G");
    assert_eq!(id.radios[1].ssid, "");
    assert_eq!((id.radios[0].channel, id.radios[1].channel), (11, 6));
    assert_eq!((id.radios[0].tx_power_dbm, id.radios[1].tx_power_dbm), (15, 15));
    assert_eq!(id.pineap_ssid_filter.mode, "deny");
    assert!(id.pineap_client_filter.entries.is_empty());
    assert_eq!(id.beacon_interval_ms, Some(100));
    assert!(id.variant.is_none());
}

#[test]
fn tier2_borrows_a_vendor() {
    let id = adversary_identity(2, "s-2", None, &draws());
    assert_eq!(id.vendor, "Samsung");
    assert_eq!(id.hostname, "Galaxy-S24");
    assert_eq!(id.radios[0].mac, "8C:85:90:01:AB:FF");
    assert_eq!(id.radios[0].ssid, "DIRECT-20-HP");
    assert_eq!((id.radios[0].channel, id.radios[1].channel), (11, 6));
    assert_eq!((id.radios[0].tx_power_dbm, id.radios[1].tx_power_dbm), (12, 10));
    assert_eq!(id.pineap_ssid_filter.mode, "allow");
    assert_eq!(id.pineap_ssid_filter.entries, vec!["DIRECT-17-HP".to_string()]);
    assert_eq!(id.pineap_client_filter.mode, "allow");
    assert_eq!(id.pineap_client_filter.entries, vec!["8C:85:90:*".to_string()]);
    assert!(id.radios.iter().all(|r| !r.mac.starts_with("00:13:37:")));
}

#[test]
fn tier3_hides_and_denies_tools() {
    let id = adversary_identity(3, "s-3", None, &draws());
    assert_eq!(id.hostname, "Galaxy-S24-101");
    assert_eq!((id.radios[0].tx_power_dbm, id.radios[1].tx_power_dbm), (6, 5));
    assert_eq!(id.variant.as_deref(), Some("burst_and_hide"));
    assert_eq!((id.beacon_interval_ms, id.active_window_secs, id.silent_window_secs), (Some(50), Some(60), Some(1800)));
    assert_eq!(id.pineap_client_filter.mode, "deny");
    assert_eq!(id.pineap_client_filter.entries, vec!["00:13:37:*", "00:13:EF:*", "DE:AD:BE:*"]);
    let named = adversary_identity(3, "s-3", Some("slow_exfil"), &draws());
    assert_eq!(named.variant.as_deref(), Some("slow_exfil"));
    assert_eq!(named.silent_window_secs, Some(0));
    let unknown = adversary_identity(3, "s-3", Some("no_such_variant"), &draws());
    assert_eq!(unknown.variant.as_deref(), Some("burst_and_hide"));
}

#[test]
fn four_digit_ssid_numbers() {
    let mut d = draws();
    d.ssid_template = 1;
    d.radio_ssid_number = 9000 + 42;
    let id = adversary_identity(2, "s", None, &d);
    assert_eq!(id.radios[0].ssid, "ATT-WIFI-1042");
}
