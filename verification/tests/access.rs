use signing_gateway::auth::{check_caller, check_ip_allowed, check_key_allowed, extract_bearer};
use signing_gateway::config::{Algorithm, GatewayConfig};
use signing_gateway::hsm::{HsmBackend, HsmError, HsmResult, KeyInfo, PublicKey, Signature};
use signing_gateway::net::{
    any_covers, choose_client, contains, leftmost_entry, reading_covers, resolve, IpAddr, IpNet,
};
use signing_gateway::state::{default_config, AppState};

struct NoKeys;

impl HsmBackend for NoKeys {
    fn sign(&self, key_id: &str, _: Algorithm, _: &[u8], _: bool) -> HsmResult<Signature> {
        Err(HsmError::KeyNotFound(key_id.to_string()))
    }

    fn verify(&self, key_id: &str, _: Algorithm, _: &[u8], _: &[u8], _: bool) -> HsmResult<bool> {
        Err(HsmError::KeyNotFound(key_id.to_string()))
    }

    fn public_key(&self, key_id: &str) -> HsmResult<PublicKey> {
        Err(HsmError::KeyNotFound(key_id.to_string()))
    }

    fn list_keys(&self) -> HsmResult<Vec<KeyInfo>> {
        Ok(vec![])
    }

    fn backend_name(&self) -> &'static str {
        "none"
    }
}

fn texts(list: &[&str]) -> Vec<String> {
    list.iter().map(|s| s.to_string()).collect()
}

fn v4(a: u8, b: u8, c: u8, d: u8) -> IpAddr {
    IpAddr::V4(u32::from_be_bytes([a, b, c, d]))
}

fn restricted() -> GatewayConfig {
    let mut cfg = default_config();
    cfg.auth.allow_all = false;
    cfg.auth.tokens.insert("tok-a".to_string(), "service-a".to_string());
    cfg.auth.tokens.insert("tok-b".to_string(), "service-b".to_string());
    cfg.auth.allowed_keys.insert("service-a".to_string(), texts(&["svc-ec", "svc-rsa"]));
    cfg.auth.allowed_ips.insert("service-a".to_string(), texts(&["10.0.1.0/24", "192.168.10.5"]));
    cfg
}

#[test]
fn tokens_belong_to_callers() {
    let state = AppState::new(restricted(), NoKeys);
    assert!(check_caller(&state, "service-a", Some("tok-a")));
    assert!(!check_caller(&state, "service-a", Some("tok-b")));
    assert!(!check_caller(&state, "service-a", Some("unknown")));
    assert!(!check_caller(&state, "service-a", None));
}

#[test]
fn everybody_is_allowed_in_development() {
    let mut cfg = restricted();
    cfg.auth.allow_all = true;
    let state = AppState::new(cfg, NoKeys);
    assert!(check_caller(&state, "service-a", None));
    assert!(check_key_allowed(&state, "service-a", "other"));
    assert!(check_ip_allowed(&state, "service-a", v4(8, 8, 8, 8)));
}

#[test]
fn keys_are_allowed_by_caller() {
    let state = AppState::new(restricted(), NoKeys);
    assert!(check_key_allowed(&state, "service-a", "svc-ec"));
    assert!(check_key_allowed(&state, "service-a", "svc-rsa"));
    assert!(!check_key_allowed(&state, "service-a", "jwt-hmac"));
    assert!(check_key_allowed(&state, "service-b", "jwt-hmac"));
}

#[test]
fn addresses_are_allowed_by_caller() {
    let state = AppState::new(restricted(), NoKeys);
    assert!(check_ip_allowed(&state, "service-a", v4(10, 0, 1, 0)));
    assert!(check_ip_allowed(&state, "service-a", v4(10, 0, 1, 255)));
    assert!(!check_ip_allowed(&state, "service-a", v4(10, 0, 2, 0)));
    assert!(check_ip_allowed(&state, "service-a", v4(192, 168, 10, 5)));
    assert!(!check_ip_allowed(&state, "service-a", v4(192, 168, 10, 6)));
    assert!(check_ip_allowed(&state, "service-b", v4(8, 8, 8, 8)));
    assert!(!check_ip_allowed(&state, "service-a", IpAddr::V6(1)));
}

#[test]
fn patterns_of_both_families() {
    let six = IpAddr::V6(0x2001_0db8_0000_0000_0000_0000_0000_0001);
    assert!(any_covers(&texts(&["2001:db8::/32"]), six));
    assert!(any_covers(&texts(&["nonsense", "2001:db8::1"]), six));
    assert!(!any_covers(&texts(&["2001:db9::/32", "::1", "nonsense", ""]), six));
    assert!(any_covers(&texts(&["::/0"]), six));
    assert!(!any_covers(&texts(&["0.0.0.0/0"]), six));
    assert!(any_covers(&texts(&["0.0.0.0/0"]), v4(1, 2, 3, 4)));
    assert!(any_covers(&texts(&["1.2.3.4/32"]), v4(1, 2, 3, 4)));
    assert!(!any_covers(&texts(&["1.2.3.4/33"]), v4(1, 2, 3, 4)));
    assert!(!any_covers(&[].to_vec(), v4(1, 2, 3, 4)));
}

#[test]
fn ranges_hold_what_shares_their_prefix() {
    let net = IpNet { addr: v4(10, 1, 2, 3), prefix: 9 };
    assert!(contains(net, v4(10, 0, 0, 0)));
    assert!(contains(net, v4(10, 127, 255, 255)));
    assert!(!contains(net, v4(10, 128, 0, 0)));
    assert!(!contains(net, v4(9, 255, 255, 255)));
    assert!(!contains(net, IpAddr::V6(0x0a01_0203)));
    let six = IpNet { addr: IpAddr::V6(0xff00), prefix: 120 };
    assert!(contains(six, IpAddr::V6(0xffff)));
    assert!(!contains(six, IpAddr::V6(0xfeff)));
    assert!(reading_covers(None, Some(v4(1, 1, 1, 1)), v4(1, 1, 1, 1)));
    assert!(!reading_covers(None, None, v4(1, 1, 1, 1)));
}

#[test]
fn bearer_tokens() {
    assert_eq!(extract_bearer(Some("Bearer tok-a")), Some("tok-a"));
    assert_eq!(extract_bearer(Some("Bearer ")), Some(""));
    assert_eq!(extract_bearer(Some("bearer tok-a")), None);
    assert_eq!(extract_bearer(Some("Basic x")), None);
    assert_eq!(extract_bearer(None), None);
}

#[test]
fn leftmost_entries() {
    assert_eq!(leftmost_entry("203.0.113.7, 10.0.0.1"), "203.0.113.7");
    assert_eq!(leftmost_entry(" \t203.0.113.7\t ,10.0.0.1"), "203.0.113.7");
    assert_eq!(leftmost_entry("203.0.113.7"), "203.0.113.7");
    assert_eq!(leftmost_entry(""), "");
    assert_eq!(leftmost_entry(" ,203.0.113.7"), "");
}

#[test]
fn forwarded_addresses_of_trusted_proxies_count() {
    let proxies = texts(&["10.0.0.0/16"]);
    let proxy = v4(10, 0, 3, 4);
    let client = v4(203, 0, 113, 7);
    assert_eq!(resolve(&proxies, proxy, Some("203.0.113.7, 10.0.9.9")), client);
    assert_eq!(resolve(&proxies, proxy, Some("2001:db8::7")), IpAddr::V6(0x2001_0db8_0000_0000_0000_0000_0000_0007));
    assert_eq!(resolve(&proxies, proxy, None), proxy);
    assert_eq!(resolve(&proxies, proxy, Some("unknown, 203.0.113.7")), proxy);
    assert_eq!(resolve(&proxies, v4(172, 16, 0, 1), Some("203.0.113.7")), v4(172, 16, 0, 1));
    assert_eq!(resolve(&[].to_vec(), proxy, Some("203.0.113.7")), proxy);
}

#[test]
fn clients_are_chosen() {
    let (peer, forwarded) = (v4(10, 0, 0, 1), v4(1, 2, 3, 4));
    assert_eq!(choose_client(true, peer, Some(forwarded)), forwarded);
    assert_eq!(choose_client(true, peer, None), peer);
    assert_eq!(choose_client(false, peer, Some(forwarded)), peer);
}

#[test]
fn state_resolves_with_its_own_proxies() {
    let mut cfg = restricted();
    cfg.trusted_proxies = texts(&["127.0.0.1"]);
    let state = AppState::new(cfg, NoKeys);
    assert_eq!(state.resolve_client_ip(v4(127, 0, 0, 1), Some("1.2.3.4")), v4(1, 2, 3, 4));
    assert_eq!(state.resolve_client_ip(v4(127, 0, 0, 2), Some("1.2.3.4")), v4(127, 0, 0, 2));
}
