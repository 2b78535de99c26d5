use vpnmanager::config::Config;
use vpnmanager::webinterface::{
    get_stats_last, get_stats_period, index, period_start, step_seconds, ApiTokenError, Token,
};

fn token(header: Option<&str>) -> Result<String, ApiTokenError> {
    Token::from_header(header, "s3cret").map(|t| t.as_str().to_string())
}

#[test]
fn missing_header() {
    assert_eq!(token(None), Err(ApiTokenError::Missing));
}

#[test]
fn bearer_with_configured_token() {
    assert_eq!(token(Some("Bearer s3cret")), Ok("s3cret".to_string()));
    assert_eq!(token(Some("Bearer   s3cret \t")), Ok("s3cret".to_string()));
    assert_eq!(token(Some("Bearers3cret")), Ok("s3cret".to_string()));
}

#[test]
fn invalid_headers() {
    assert_eq!(token(Some("Basic s3cret")), Err(ApiTokenError::Invalid));
    assert_eq!(token(Some("bearer s3cret")), Err(ApiTokenError::Invalid));
    assert_eq!(token(Some("Bearer wrong")), Err(ApiTokenError::Invalid));
    assert_eq!(token(Some("Bearer s3cret x")), Err(ApiTokenError::Invalid));
    assert_eq!(token(Some("Bearer")), Err(ApiTokenError::Invalid));
    assert_eq!(token(Some("")), Err(ApiTokenError::Invalid));
}

#[test]
fn empty_configured_token() {
    let r = Token::from_header(Some("Bearer "), "");
    assert!(r.is_ok());
}

#[test]
fn status_page() {
    assert_eq!(index(), "VPN backend is running");
}

#[test]
fn statistics_steps() {
    assert_eq!(step_seconds("minute"), 60);
    assert_eq!(step_seconds("hour"), 3600);
    assert_eq!(step_seconds("day"), 86400);
    assert_eq!(step_seconds("week"), 604800);
    assert_eq!(step_seconds("year"), 60);
}

#[test]
fn statistics_periods() {
    let now = 1_700_000_000;
    assert_eq!(period_start("hour", now), now - 3600);
    assert_eq!(period_start("day", now), now - 86400);
    assert_eq!(period_start("week", now), now - 604800);
    assert_eq!(period_start("month", now), now);
    assert_eq!(period_start("other", 5), 5);
}

#[test]
fn wireguard_config_path() {
    let c = Config {
        server_port: "51820".to_string(),
        ip_interface_name: "eth0".to_string(),
        public_address: "vpn.example".to_string(),
        auth_token: "t".to_string(),
        server_dump_file: "server.json".to_string(),
        subnet: 24,
        wg_workingdir: "/etc/wireguard".to_string(),
        wg_interface_name: "wg0".to_string(),
        monitoring_data_file: "data.toml".to_string(),
        monitoring_cache_file: "cache.toml".to_string(),
    };
    assert_eq!(c.wg_config_path(), "/etc/wireguard/wg0.conf");
}

#[test]
fn last_period_query() {
    let (from, to) = get_stats_last("day", 100_000);
    assert_eq!((from.as_str(), to.as_str()), ("13600", "100000"));
    assert_eq!(get_stats_period("hour", &from, &to), Some((13600, 100_000, 3600)));
    let (from, to) = get_stats_last("forever", 42);
    assert_eq!(get_stats_period("minute", &from, &to), Some((42, 42, 60)));
}

#[test]
fn unreadable_period_query() {
    assert_eq!(get_stats_period("day", "x", "5"), None);
    assert_eq!(get_stats_period("day", "1", ""), None);
    assert_eq!(get_stats_period("fortnight", "+1", "2"), Some((1, 2, 60)));
}

#[test]
fn bearer_token_law_example() {
    for t in ["a", "tok en", "Z9-_=", "ключ"] {
        let header = format!("Bearer {}", t);
        let r = Token::from_header(Some(&header), t).unwrap();
        assert_eq!(r.as_str(), t);
    }
}
