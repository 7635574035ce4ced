//! Adversary identities for tiered wireless-lab simulation.
//!
//! Each tier is an adversary of another skill level: tier 1 keeps the
//! device's factory identity (Hak5 MAC prefix, stock hostname and SSID),
//! tier 2 borrows a real vendor's MAC prefix, hostname and a common SSID,
//! and tier 3 adds low transmit power, a beacon-behaviour variant and a
//! client filter that shuts out other security tools. The random choices
//! come in as plain numbers; every rule that turns them into an identity is
//! here.
use vstd::prelude::*;
use crate::text::{decimal, push_decimal, push_str, string_from, chars_of, chars_eq_str, starts_with_seq};

verus! {

// ---------------------------------------------------------------- tables

/// The MAC prefix of Hak5 devices.
pub open spec fn hak5_oui() -> (u8, u8, u8) {
    (0x00, 0x13, 0x37)
}

/// Number of vendors whose identity can be borrowed.
pub const VENDOR_COUNT: u32 = 16;

/// Real vendor MAC prefixes (OUIs).
pub open spec fn vendor_ouis() -> Seq<(u8, u8, u8)> {
    seq![
        (0xA4, 0x83, 0xE7), (0x3C, 0x06, 0x30), (0xF0, 0x18, 0x98), (0x8C, 0x85, 0x90),
        (0xB0, 0x72, 0xBF), (0x94, 0xE9, 0x79), (0x3C, 0x28, 0x6D), (0x48, 0xA4, 0x72),
        (0xDC, 0x71, 0x96), (0xF4, 0xF5, 0xDB), (0x64, 0xB4, 0x73), (0x50, 0x8A, 0x06),
        (0x9C, 0x2E, 0xA1), (0x04, 0xBA, 0xD6), (0x60, 0xBE, 0xB5), (0xE8, 0x6F, 0x38),
    ]
}

/// The vendor owning each prefix.
pub open spec fn vendor_names() -> Seq<Seq<char>> {
    seq![
        "Apple"@, "Apple"@, "Apple"@, "Samsung"@, "Samsung"@, "Samsung"@, "Intel"@, "Intel"@,
        "Google"@, "Google"@, "Xiaomi"@, "Xiaomi"@, "Huawei"@, "Huawei"@, "Motorola"@, "OnePlus"@,
    ]
}

/// The hostname a device of each prefix typically has.
pub open spec fn vendor_hostnames() -> Seq<Seq<char>> {
    seq![
        "iPhone"@, "MacBook"@, "iPad"@, "Galaxy-S24"@, "Galaxy-A54"@, "SM-G998"@, "DESKTOP"@,
        "NUC"@, "Pixel-8"@, "Pixel-7a"@, "Redmi-Note"@, "Mi-14"@, "HUAWEI-P60"@, "MatePad"@,
        "moto-g"@, "OnePlus-12"@,
    ]
}

/// The `i`-th vendor: prefix, name and typical hostname.
fn vendor_entry(i: u32) -> (r: ((u8, u8, u8), &'static str, &'static str))
    requires
        i < VENDOR_COUNT,
    ensures
        r.0 == vendor_ouis()[i as int],
        r.1@ == vendor_names()[i as int],
        r.2@ == vendor_hostnames()[i as int],
{
    match i {
        0 => ((0xA4, 0x83, 0xE7), "Apple", "iPhone"),
        1 => ((0x3C, 0x06, 0x30), "Apple", "MacBook"),
        2 => ((0xF0, 0x18, 0x98), "Apple", "iPad"),
        3 => ((0x8C, 0x85, 0x90), "Samsung", "Galaxy-S24"),
        4 => ((0xB0, 0x72, 0xBF), "Samsung", "Galaxy-A54"),
        5 => ((0x94, 0xE9, 0x79), "Samsung", "SM-G998"),
        6 => ((0x3C, 0x28, 0x6D), "Intel", "DESKTOP"),
        7 => ((0x48, 0xA4, 0x72), "Intel", "NUC"),
        8 => ((0xDC, 0x71, 0x96), "Google", "Pixel-8"),
        9 => ((0xF4, 0xF5, 0xDB), "Google", "Pixel-7a"),
        10 => ((0x64, 0xB4, 0x73), "Xiaomi", "Redmi-Note"),
        11 => ((0x50, 0x8A, 0x06), "Xiaomi", "Mi-14"),
        12 => ((0x9C, 0x2E, 0xA1), "Huawei", "HUAWEI-P60"),
        13 => ((0x04, 0xBA, 0xD6), "Huawei", "MatePad"),
        14 => ((0x60, 0xBE, 0xB5), "Motorola", "moto-g"),
        _ => ((0xE8, 0x6F, 0x38), "OnePlus", "OnePlus-12"),
    }
}

/// Number of cover SSID templates.
pub const SSID_TEMPLATE_COUNT: u32 = 12;

/// The cover SSID templates, each as the text before its number, which
/// number it takes (0: none, 2: two digits, 4: four digits) and the text
/// after it.
pub open spec fn ssid_templates() -> Seq<(Seq<char>, u8, Seq<char>)> {
    seq![
        ("NETGEAR-5G"@, 0u8, ""@), ("ATT-WIFI-"@, 4u8, ""@), ("xfinitywifi"@, 0u8, ""@),
        ("Verizon_"@, 4u8, ""@), ("DIRECT-"@, 2u8, "-HP"@), ("CenturyLink"@, 4u8, ""@),
        ("HOME-"@, 4u8, ""@), ("MySpectrumWiFi"@, 2u8, ""@), ("linksys_"@, 4u8, ""@),
        ("TP-Link_"@, 4u8, ""@), ("ASUS_5G_"@, 4u8, ""@), ("Google_Wifi_"@, 2u8, ""@),
    ]
}

/// The `i`-th cover SSID template.
fn ssid_template(i: u32) -> (r: (&'static str, u8, &'static str))
    requires
        i < SSID_TEMPLATE_COUNT,
    ensures
        r.0@ == ssid_templates()[i as int].0,
        r.1 == ssid_templates()[i as int].1,
        r.2@ == ssid_templates()[i as int].2,
{
    match i {
        0 => ("NETGEAR-5G", 0, ""),
        1 => ("ATT-WIFI-", 4, ""),
        2 => ("xfinitywifi", 0, ""),
        3 => ("Verizon_", 4, ""),
        4 => ("DIRECT-", 2, "-HP"),
        5 => ("CenturyLink", 4, ""),
        6 => ("HOME-", 4, ""),
        7 => ("MySpectrumWiFi", 2, ""),
        8 => ("linksys_", 4, ""),
        9 => ("TP-Link_", 4, ""),
        10 => ("ASUS_5G_", 4, ""),
        _ => ("Google_Wifi_", 2, ""),
    }
}

/// Number of tier-3 beacon-behaviour variants.
pub const VARIANT_COUNT: u32 = 4;

/// The tier-3 variants: name, beacon interval (ms), active window (s) and
/// silent window (s).
pub open spec fn variants() -> Seq<(Seq<char>, u32, u32, u32)> {
    seq![
        ("quiet_apple"@, 100u32, 300u32, 600u32),
        ("samsung_persistent"@, 100u32, 900u32, 300u32),
        ("burst_and_hide"@, 50u32, 60u32, 1800u32),
        ("slow_exfil"@, 200u32, 3600u32, 0u32),
    ]
}

/// The `i`-th tier-3 variant.
fn variant_entry(i: u32) -> (r: (&'static str, u32, u32, u32))
    requires
        i < VARIANT_COUNT,
    ensures
        r.0@ == variants()[i as int].0,
        r.1 == variants()[i as int].1,
        r.2 == variants()[i as int].2,
        r.3 == variants()[i as int].3,
{
    match i {
        0 => ("quiet_apple", 100, 300, 600),
        1 => ("samsung_persistent", 100, 900, 300),
        2 => ("burst_and_hide", 50, 60, 1800),
        _ => ("slow_exfil", 200, 3600, 0),
    }
}

/// The security-tool MAC prefixes a tier-3 adversary refuses as clients
/// (other Pineapples, Pwnagotchi, a common pen-test placeholder).
pub open spec fn denied_tool_prefixes() -> Seq<Seq<char>> {
    seq!["00:13:37:*"@, "00:13:EF:*"@, "DE:AD:BE:*"@]
}

// ---------------------------------------------------------------- text

/// Upper-case hexadecimal digits.
pub open spec fn hex_digits() -> Seq<char> {
    "0123456789ABCDEF"@
}

/// A byte as two upper-case hexadecimal digits.
pub open spec fn hex_byte(b: u8) -> Seq<char> {
    seq![hex_digits()[(b / 16) as int], hex_digits()[(b % 16) as int]]
}

/// A MAC prefix as `XX:XX:XX`.
pub open spec fn oui_text(o: (u8, u8, u8)) -> Seq<char> {
    hex_byte(o.0) + ":"@ + hex_byte(o.1) + ":"@ + hex_byte(o.2)
}

/// A MAC address from its prefix and device part, as `XX:XX:XX:XX:XX:XX`.
pub open spec fn mac_text(o: (u8, u8, u8), nic: (u8, u8, u8)) -> Seq<char> {
    oui_text(o) + ":"@ + oui_text(nic)
}

/// A cover SSID: the template with its number filled in (two-digit numbers
/// from 10 to 99, four-digit ones from 1000 to 9999).
pub open spec fn cover_ssid(t: (Seq<char>, u8, Seq<char>), n: u32) -> Seq<char> {
    if t.1 == 2 {
        t.0 + decimal((10 + n % 90) as nat) + t.2
    } else if t.1 == 4 {
        t.0 + decimal((1000 + n % 9000) as nat) + t.2
    } else {
        t.0 + t.2
    }
}

/// The channel a draw picks among 1, 6 and 11.
pub open spec fn channel_of(n: u32) -> u8 {
    if n % 3 == 0 {
        1
    } else if n % 3 == 1 {
        6
    } else {
        11
    }
}

// ---------------------------------------------------------------- identity

/// The random choices behind an identity, each a uniformly drawn number
/// that the identity reduces to the range it needs.
pub struct IdentityDraws {
    /// Which vendor to borrow.
    pub vendor: u32,
    /// Which cover SSID template to use.
    pub ssid_template: u32,
    /// Which tier-3 variant to use when none is named.
    pub variant: u32,
    /// Device part of the access-point radio's MAC.
    pub radio0_nic: (u8, u8, u8),
    /// Device part of the monitor radio's MAC.
    pub radio1_nic: (u8, u8, u8),
    /// Channel of the access-point radio.
    pub radio0_channel: u32,
    /// Channel of the monitor radio.
    pub radio1_channel: u32,
    /// Transmit power of the access-point radio.
    pub tx_power: u32,
    /// Number in the access-point radio's SSID.
    pub radio_ssid_number: u32,
    /// Number in the SSID allowed by the SSID filter.
    pub filter_ssid_number: u32,
    /// Number in a tier-3 hostname.
    pub hostname_number: u32,
}

/// One radio of the device.
pub struct RadioConfig {
    pub radio: String,
    pub mac: String,
    pub ssid: String,
    pub channel: u8,
    pub tx_power_dbm: u8,
    pub mode: String,
    pub enabled: bool,
}

/// An allow or deny list.
pub struct FilterConfig {
    /// `allow` or `deny`.
    pub mode: String,
    pub entries: Vec<String>,
}

/// An adversary identity, for session provenance.
pub struct AdversaryIdentity {
    pub session_id: String,
    pub tier: u8,
    pub authorization_basis: String,
    pub radios: Vec<RadioConfig>,
    pub hostname: String,
    pub vendor: String,
    pub pineap_ssid_filter: FilterConfig,
    pub pineap_client_filter: FilterConfig,
    pub variant: Option<String>,
    pub beacon_interval_ms: Option<u32>,
    pub active_window_secs: Option<u32>,
    pub silent_window_secs: Option<u32>,
}

/// The index of the first variant, from `i` on, named `name`.
pub open spec fn variant_named_from(name: Seq<char>, i: int) -> Option<int>
    decreases 4 - i,
{
    if i >= 4 {
        None
    } else if variants()[i].0 == name {
        Some(i)
    } else {
        variant_named_from(name, i + 1)
    }
}

/// A variant found from `i` on lies between `i` and the last variant.
pub proof fn lemma_variant_named_range(name: Seq<char>, i: int)
    requires
        0 <= i,
    ensures
        variant_named_from(name, i) matches Some(k) ==> i <= k < 4,
    decreases 4 - i,
{
    if i < 4 && variants()[i].0 != name {
        lemma_variant_named_range(name, i + 1);
    }
}

/// The index of the variant named `name`, if there is one.
pub open spec fn variant_named(name: Seq<char>) -> Option<int> {
    variant_named_from(name, 0)
}

/// The variant of a tier-3 identity: the one named, if any variant has
/// that name, else the drawn one.
pub open spec fn chosen_variant(variant: Option<Seq<char>>, draws: IdentityDraws) -> int {
    match variant {
        Some(name) => match variant_named(name) {
            Some(i) => i,
            None => (draws.variant % 4) as int,
        },
        None => (draws.variant % 4) as int,
    }
}

/// The MAC prefix an identity of `tier` uses.
pub open spec fn tier_oui(tier: u8, draws: IdentityDraws) -> (u8, u8, u8) {
    if tier == 1 {
        hak5_oui()
    } else {
        vendor_ouis()[(draws.vendor % 16) as int]
    }
}

/// The hostname of an identity.
pub open spec fn tier_hostname(tier: u8, draws: IdentityDraws) -> Seq<char> {
    if tier == 1 {
        "mk7"@
    } else if tier == 2 {
        vendor_hostnames()[(draws.vendor % 16) as int]
    } else {
        vendor_hostnames()[(draws.vendor % 16) as int] + "-"@ + decimal((100 + draws.hostname_number % 899) as nat)
    }
}

/// The transmit powers (dBm) of the two radios.
pub open spec fn tier_tx_power(tier: u8, draws: IdentityDraws) -> (u8, u8) {
    if tier == 1 {
        (15, 15)
    } else if tier == 2 {
        ((10 + draws.tx_power % 3) as u8, 10)
    } else {
        ((5 + draws.tx_power % 4) as u8, 5)
    }
}

/// The cover SSID template an identity uses.
pub open spec fn tier_template(draws: IdentityDraws) -> (Seq<char>, u8, Seq<char>) {
    ssid_templates()[(draws.ssid_template % 12) as int]
}

/// The entries of the client filter of an identity.
pub open spec fn client_filter_entries(tier: u8, draws: IdentityDraws) -> Seq<Seq<char>> {
    if tier == 1 {
        seq![]
    } else if tier == 2 {
        seq![oui_text(tier_oui(tier, draws)) + ":*"@]
    } else {
        denied_tool_prefixes()
    }
}

/// The view of a string list.
pub open spec fn strings_view(v: Seq<String>) -> Seq<Seq<char>> {
    v.map_values(|s: String| s@)
}

// ---------------------------------------------------------------- building

/// Append a byte as two hexadecimal digits.
fn push_hex_byte(out: &mut Vec<char>, b: u8)
    ensures
        final(out)@ == old(out)@ + hex_byte(b),
{
    let digits = chars_of("0123456789ABCDEF");
    proof {
        reveal_strlit("0123456789ABCDEF");
    }
    assert(digits@.len() == 16);
    let hi = digits[(b / 16) as usize];
    let lo = digits[(b % 16) as usize];
    out.push(hi);
    out.push(lo);
    assert(final(out)@ =~= old(out)@ + hex_byte(b));
}

/// Append a MAC prefix as `XX:XX:XX`.
fn push_oui(out: &mut Vec<char>, o: (u8, u8, u8))
    ensures
        final(out)@ == old(out)@ + oui_text(o),
{
    let ghost start = out@;
    push_hex_byte(out, o.0);
    push_str(out, ":");
    push_hex_byte(out, o.1);
    push_str(out, ":");
    push_hex_byte(out, o.2);
    assert(out@ =~= start + oui_text(o));
}

/// A MAC address from its prefix and device part.
fn mac_string(o: (u8, u8, u8), nic: (u8, u8, u8)) -> (r: String)
    ensures
        r@ == mac_text(o, nic),
{
    let mut out: Vec<char> = Vec::new();
    push_oui(&mut out, o);
    push_str(&mut out, ":");
    push_oui(&mut out, nic);
    assert(out@ =~= mac_text(o, nic));
    string_from(out.as_slice())
}

/// The cover SSID of template `i` with number `n`.
fn cover_ssid_string(i: u32, n: u32) -> (r: String)
    requires
        i < SSID_TEMPLATE_COUNT,
    ensures
        r@ == cover_ssid(ssid_templates()[i as int], n),
{
    let (pre, kind, post) = ssid_template(i);
    let mut out: Vec<char> = Vec::new();
    push_str(&mut out, pre);
    if kind == 2 {
        push_decimal(&mut out, (10 + n % 90) as u64);
    } else if kind == 4 {
        push_decimal(&mut out, (1000 + n % 9000) as u64);
    }
    push_str(&mut out, post);
    string_from(out.as_slice())
}

/// The channel a draw picks.
fn channel(n: u32) -> (r: u8)
    ensures
        r == channel_of(n),
{
    if n % 3 == 0 {
        1
    } else if n % 3 == 1 {
        6
    } else {
        11
    }
}

/// The index of the variant named `name`, if there is one.
fn find_variant(name: &str) -> (r: Option<u32>)
    ensures
        match variant_named(name@) {
            Some(i) => r == Some(i as u32),
            None => r is None,
        },
        r matches Some(i) ==> i < VARIANT_COUNT,
{
    proof {
        lemma_variant_named_range(name@, 0);
    }
    let mut i: u32 = 0;
    while i < VARIANT_COUNT
        invariant
            i <= 4,
            variant_named_from(name@, 0) == variant_named_from(name@, i as int),
        decreases 4 - i,
    {
        let (n, _, _, _) = variant_entry(i);
        if chars_eq_str(chars_of(n).as_slice(), name) {
            return Some(i);
        }
        i = i + 1;
    }
    None
}

/// A string list from a single string.
fn one_entry(s: String) -> (r: Vec<String>)
    ensures
        strings_view(r@) == seq![s@],
{
    let mut v: Vec<String> = Vec::new();
    v.push(s);
    assert(strings_view(v@) =~= seq![s@]);
    v
}

/// A radio of the device.
fn radio(name: &str, mac: String, ssid: String, channel: u8, tx_power_dbm: u8, mode: &str) -> (r: RadioConfig)
    ensures
        r.radio@ == name@,
        r.mac@ == mac@,
        r.ssid@ == ssid@,
        r.channel == channel,
        r.tx_power_dbm == tx_power_dbm,
        r.mode@ == mode@,
        r.enabled,
{
    RadioConfig {
        radio: String::from_str(name),
        mac,
        ssid,
        channel,
        tx_power_dbm,
        mode: String::from_str(mode),
        enabled: true,
    }
}

/// The view of an optional name.
pub open spec fn opt_view(v: Option<&str>) -> Option<Seq<char>> {
    match v {
        Some(s) => Some(s@),
        None => None,
    }
}

/// A string list with the view `s`, built from literals.
fn strings_of(items: &[&str]) -> (r: Vec<String>)
    ensures
        strings_view(r@) == items@.map_values(|s: &str| s@),
{
    let mut v: Vec<String> = Vec::new();
    let mut i: usize = 0;
    while i < items.len()
        invariant
            i <= items@.len(),
            strings_view(v@) == items@.take(i as int).map_values(|s: &str| s@),
        decreases items@.len() - i,
    {
        let ghost before = v@;
        v.push(String::from_str(items[i]));
        assert(strings_view(v@) =~= strings_view(before).push(items@[i as int]@));
        assert(items@.take(i as int + 1).map_values(|s: &str| s@) =~= items@.take(i as int).map_values(
            |s: &str| s@,
        ).push(items@[i as int]@));
        i = i + 1;
    }
    assert(items@.take(items@.len() as int) =~= items@);
    v
}

/// A MAC made from the Hak5 prefix starts with `00:13:37:`.
pub proof fn lemma_hak5_mac(nic: (u8, u8, u8))
    ensures
        starts_with_seq(mac_text(hak5_oui(), nic), "00:13:37:"@),
{
    reveal_strlit("0123456789ABCDEF");
    reveal_strlit("00:13:37:");
    let m = mac_text(hak5_oui(), nic);
    assert(hex_digits()[0] == '0' && hex_digits()[1] == '1' && hex_digits()[3] == '3' && hex_digits()[7] == '7');
    assert(hex_byte(0) =~= seq!['0', '0']);
    assert(hex_byte(0x13) =~= seq!['1', '3']);
    assert(hex_byte(0x37) =~= seq!['3', '7']);
    assert(":"@ =~= seq![':']) by {
        reveal_strlit(":");
    }
    assert(m.subrange(0, 9) =~= "00:13:37:"@);
}

/// A MAC made from a borrowed vendor's prefix does not start with
/// `00:13:37:`, and the vendor is not Hak5.
pub proof fn lemma_vendor_mac(i: int, nic: (u8, u8, u8))
    requires
        0 <= i < 16,
    ensures
        !starts_with_seq(mac_text(vendor_ouis()[i], nic), "00:13:37:"@),
        vendor_names()[i] != "Hak5"@,
{
    reveal_strlit("0123456789ABCDEF");
    reveal_strlit("00:13:37:");
    reveal_strlit("Hak5");
    reveal_strlit("Apple");
    reveal_strlit("Samsung");
    reveal_strlit("Intel");
    reveal_strlit("Google");
    reveal_strlit("Xiaomi");
    reveal_strlit("Huawei");
    reveal_strlit("Motorola");
    reveal_strlit("OnePlus");
    let o = vendor_ouis()[i];
    let m = mac_text(o, nic);
    assert(o.0 != 0);
    assert(m[0] == hex_digits()[(o.0 / 16) as int]);
    assert(m[1] == hex_digits()[(o.0 % 16) as int]);
    if starts_with_seq(m, "00:13:37:"@) {
        assert(m.subrange(0, 9)[0] == '0');
        assert(m.subrange(0, 9)[1] == '0');
        assert(o.0 / 16 == 0 && o.0 % 16 == 0);
        assert(false);
    }
    assert(vendor_names()[i].len() != 4);
}

/// The adversary identity of `tier` (1: script kiddie, 2: intermediate,
/// 3: APT) for a session, built from the random choices in `draws`. A
/// tier-3 identity uses the variant named `variant` when there is one of
/// that name, else the drawn one.
pub fn adversary_identity(tier: u8, session_id: &str, variant: Option<&str>, draws: &IdentityDraws) -> (r: AdversaryIdentity)
    requires
        1 <= tier <= 3,
    ensures
        r.session_id@ == session_id@,
        r.tier == tier,
        r.authorization_basis@ == "controlled_home_lab"@,
        r.radios@.len() == 2,
        r.radios@[0].radio@ == "radio0"@,
        r.radios@[0].mac@ == mac_text(tier_oui(tier, *draws), draws.radio0_nic),
        r.radios@[0].ssid@ == (if tier == 1 { "Pineapple_2G"@ } else { cover_ssid(tier_template(*draws), draws.radio_ssid_number) }),
        r.radios@[0].channel == (if tier == 1 { 11u8 } else { channel_of(draws.radio0_channel) }),
        r.radios@[0].tx_power_dbm == tier_tx_power(tier, *draws).0,
        r.radios@[0].mode@ == "ap"@,
        r.radios@[0].enabled,
        r.radios@[1].radio@ == "radio1"@,
        r.radios@[1].mac@ == mac_text(tier_oui(tier, *draws), draws.radio1_nic),
        r.radios@[1].ssid@ == Seq::<char>::empty(),
        r.radios@[1].channel == (if tier == 1 { 6u8 } else { channel_of(draws.radio1_channel) }),
        r.radios@[1].tx_power_dbm == tier_tx_power(tier, *draws).1,
        r.radios@[1].mode@ == "monitor"@,
        r.radios@[1].enabled,
        r.hostname@ == tier_hostname(tier, *draws),
        r.vendor@ == (if tier == 1 { "Hak5"@ } else { vendor_names()[(draws.vendor % 16) as int] }),
        r.pineap_ssid_filter.mode@ == (if tier == 1 { "deny"@ } else { "allow"@ }),
        strings_view(r.pineap_ssid_filter.entries@) == (if tier == 1 { Seq::<Seq<char>>::empty() } else { seq![cover_ssid(tier_template(*draws), draws.filter_ssid_number)] }),
        r.pineap_client_filter.mode@ == (if tier == 2 { "allow"@ } else { "deny"@ }),
        strings_view(r.pineap_client_filter.entries@) == client_filter_entries(tier, *draws),
        tier == 3 ==> (r.variant matches Some(v) && v@ == variants()[chosen_variant(opt_view(variant), *draws)].0),
        tier == 3 ==> r.beacon_interval_ms == Some(variants()[chosen_variant(opt_view(variant), *draws)].1),
        tier == 3 ==> r.active_window_secs == Some(variants()[chosen_variant(opt_view(variant), *draws)].2),
        tier == 3 ==> r.silent_window_secs == Some(variants()[chosen_variant(opt_view(variant), *draws)].3),
        tier != 3 ==> (r.variant is None && r.beacon_interval_ms == Some(100u32) && r.active_window_secs is None && r.silent_window_secs is None),
        tier == 1 ==> (r.vendor@ == "Hak5"@ && r.hostname@ == "mk7"@ && starts_with_seq(r.radios@[0].mac@, "00:13:37:"@)
            && starts_with_seq(r.radios@[1].mac@, "00:13:37:"@)),
        tier >= 2 ==> (r.vendor@ != "Hak5"@ && !starts_with_seq(r.radios@[0].mac@, "00:13:37:"@)
            && !starts_with_seq(r.radios@[1].mac@, "00:13:37:"@) && r.radios@[0].tx_power_dbm <= 12
            && r.radios@[1].tx_power_dbm <= 12),
        tier == 3 ==> (r.radios@[0].tx_power_dbm <= 8 && r.radios@[1].tx_power_dbm <= 8 && r.variant is Some
            && strings_view(r.pineap_client_filter.entries@).contains("00:13:37:*"@)),
{
    let vsel: u32 = draws.vendor % VENDOR_COUNT;
    let tsel: u32 = draws.ssid_template % SSID_TEMPLATE_COUNT;
    let (voui, vname, vhost) = vendor_entry(vsel);
    let oui: (u8, u8, u8) = if tier == 1 {
        (0x00u8, 0x13u8, 0x37u8)
    } else {
        voui
    };
    proof {
        if tier == 1 {
            lemma_hak5_mac(draws.radio0_nic);
            lemma_hak5_mac(draws.radio1_nic);
        } else {
            lemma_vendor_mac(vsel as int, draws.radio0_nic);
            lemma_vendor_mac(vsel as int, draws.radio1_nic);
        }
    }
    let mac0 = mac_string(oui, draws.radio0_nic);
    let mac1 = mac_string(oui, draws.radio1_nic);
    let ssid0 = if tier == 1 {
        String::from_str("Pineapple_2G")
    } else {
        cover_ssid_string(tsel, draws.radio_ssid_number)
    };
    let ch0: u8 = if tier == 1 {
        11
    } else {
        channel(draws.radio0_channel)
    };
    let ch1: u8 = if tier == 1 {
        6
    } else {
        channel(draws.radio1_channel)
    };
    let tx0: u8 = if tier == 1 {
        15
    } else if tier == 2 {
        (10 + draws.tx_power % 3) as u8
    } else {
        (5 + draws.tx_power % 4) as u8
    };
    let tx1: u8 = if tier == 1 {
        15
    } else if tier == 2 {
        10
    } else {
        5
    };
    let mut radios: Vec<RadioConfig> = Vec::new();
    radios.push(radio("radio0", mac0, ssid0, ch0, tx0, "ap"));
    proof {
        reveal_strlit("");
    }
    radios.push(radio("radio1", mac1, String::from_str(""), ch1, tx1, "monitor"));
    let hostname = if tier == 1 {
        String::from_str("mk7")
    } else if tier == 2 {
        String::from_str(vhost)
    } else {
        let mut h: Vec<char> = Vec::new();
        push_str(&mut h, vhost);
        push_str(&mut h, "-");
        push_decimal(&mut h, (100 + draws.hostname_number % 899) as u64);
        string_from(h.as_slice())
    };
    let vendor = if tier == 1 {
        String::from_str("Hak5")
    } else {
        String::from_str(vname)
    };
    let ssid_filter = if tier == 1 {
        let empty: Vec<String> = Vec::new();
        assert(strings_view(empty@) =~= Seq::<Seq<char>>::empty());
        FilterConfig { mode: String::from_str("deny"), entries: empty }
    } else {
        FilterConfig {
            mode: String::from_str("allow"),
            entries: one_entry(cover_ssid_string(tsel, draws.filter_ssid_number)),
        }
    };
    let client_filter = if tier == 1 {
        let empty: Vec<String> = Vec::new();
        assert(strings_view(empty@) =~= Seq::<Seq<char>>::empty());
        FilterConfig { mode: String::from_str("deny"), entries: empty }
    } else if tier == 2 {
        let mut p: Vec<char> = Vec::new();
        push_oui(&mut p, oui);
        push_str(&mut p, ":*");
        FilterConfig { mode: String::from_str("allow"), entries: one_entry(string_from(p.as_slice())) }
    } else {
        let denied = ["00:13:37:*", "00:13:EF:*", "DE:AD:BE:*"];
        let entries = strings_of(denied.as_slice());
        proof {
            assert(denied@.map_values(|s: &str| s@) =~= denied_tool_prefixes());
            assert(denied_tool_prefixes()[0] == "00:13:37:*"@);
        }
        FilterConfig { mode: String::from_str("deny"), entries }
    };
    let (variant_name, beacon, active, silent) = if tier == 3 {
        let drawn: u32 = draws.variant % VARIANT_COUNT;
        let k: u32 = match variant {
            Some(name) => match find_variant(name) {
                Some(i) => i,
                None => drawn,
            },
            None => drawn,
        };
        proof {
            if let Some(nm) = variant {
                lemma_variant_named_range(nm@, 0);
            }
            assert(drawn as int == (draws.variant % 4) as int);
        }
        assert(k as int == chosen_variant(opt_view(variant), *draws));
        let (n, b, a, s) = variant_entry(k);
        (Some(String::from_str(n)), Some(b), Some(a), Some(s))
    } else {
        (None, Some(100u32), None, None)
    };
    AdversaryIdentity {
        session_id: String::from_str(session_id),
        tier,
        authorization_basis: String::from_str("controlled_home_lab"),
        radios,
        hostname,
        vendor,
        pineap_ssid_filter: ssid_filter,
        pineap_client_filter: client_filter,
        variant: variant_name,
        beacon_interval_ms: beacon,
        active_window_secs: active,
        silent_window_secs: silent,
    }
}

} // verus!
