use tydle::cache::CacheStore;
use tydle::chars;
use tydle::client::{StreamingProtocol, YtClient, YtEndpoint};
use tydle::cookies::{build_pref_value, needs_consent_cookie, parse_netscape_cookies, Cookie,
    CookieJar, DomainCookies};
use tydle::auth::{generate_cookie_auth_headers, get_sid_cookies, make_sid_authorization,
    parse_data_sync_id};
use tydle::jsonx::JsonVal;
use tydle::err::TydleError;
use tydle::format::{compact_num, get_resolution, human_readable_size, parse_format, Format};
use tydle::ids::VideoId;
use sha1::{Digest, Sha1};

#[test]
fn video_id_accepts_a_canonical_id() {
    let id = VideoId::new("UWn9RdueB7E").unwrap();
    assert_eq!(id.as_str(), "UWn9RdueB7E");
}

#[test]
fn video_id_rejects_a_short_id() {
    assert_eq!(VideoId::new("too_short").unwrap_err(), TydleError::InvalidInput);
}

#[test]
fn video_id_rejects_bad_characters() {
    assert_eq!(VideoId::new("UWn9RdueB7!").unwrap_err(), TydleError::InvalidInput);
    assert!(VideoId::new("dQw4w9WgXcQ").is_ok());
}

#[test]
fn cache_store_keeps_the_first_value() {
    let mut cache: CacheStore<String> = CacheStore::new();
    cache.add("k".to_string(), "v1".to_string());
    assert_eq!(cache.get(&"k".to_string()).unwrap(), "v1");
    cache.add("k".to_string(), "v2".to_string());
    assert_eq!(cache.get(&"k".to_string()).unwrap(), "v1");
    assert!(cache.contains(&"k".to_string()));
    assert!(cache.get(&"other".to_string()).is_none());
}

#[test]
fn cache_store_pair_keys() {
    let mut cache: CacheStore<(String, String)> = CacheStore::new();
    cache.add(("sig-u".to_string(), "abc".to_string()), "deciphered".to_string());
    assert_eq!(cache.get(&("sig-u".to_string(), "abc".to_string())).unwrap(), "deciphered");
    assert!(cache.get(&("n-u".to_string(), "abc".to_string())).is_none());
}

fn plain_cookie(name: &str, value: &str) -> Cookie {
    Cookie {
        name: name.to_string(),
        value: value.to_string(),
        domain: ".youtube.com".to_string(),
        path: "/".to_string(),
        secure: false,
        expiration: 0,
        http_only: false,
    }
}

#[test]
fn header_value_joins_pairs() {
    let set = DomainCookies::new(vec![plain_cookie("a", "1"), plain_cookie("b", "2")]);
    assert_eq!(set.header_value(), "a=1; b=2");
}

#[test]
fn header_value_splits_back_into_the_same_pairs() {
    let set = DomainCookies::new(vec![
        plain_cookie("SAPISID", "xyz"),
        plain_cookie("PREF", "hl=en&tz=UTC"),
        plain_cookie("SOCS", "CAI"),
    ]);
    let header = set.header_value();
    let mut recovered: Vec<(String, String)> = Vec::new();
    for piece in header.split("; ") {
        let (k, v) = piece.split_once('=').unwrap();
        recovered.push((k.to_string(), v.to_string()));
    }
    assert_eq!(
        recovered,
        vec![
            ("SAPISID".to_string(), "xyz".to_string()),
            ("PREF".to_string(), "hl=en&tz=UTC".to_string()),
            ("SOCS".to_string(), "CAI".to_string()),
        ]
    );
}

#[test]
fn header_value_of_the_empty_set_is_empty() {
    let set = DomainCookies::new(vec![]);
    assert_eq!(set.header_value(), "");
}

#[test]
fn cookie_jar_filters_by_domain() {
    let mut other = plain_cookie("x", "1");
    other.domain = ".example.org".to_string();
    let jar = CookieJar::new_with_cookies(DomainCookies::new(vec![
        plain_cookie("a", "1"),
        other,
        plain_cookie("b", "2"),
    ]));
    let yt = jar.get_all(".youtube.com");
    assert_eq!(yt.len(), 2);
    assert!(yt.contains("a"));
    assert!(yt.contains("b"));
    assert!(!yt.contains("x"));
}

#[test]
fn netscape_parser_reads_well_formed_rows() {
    let content = "# Netscape HTTP Cookie File\n\
\n\
.youtube.com\tTRUE\t/\tTRUE\t1893456000\tSAPISID\tabc123\n\
youtube.com\tTRUE\t/\tFALSE\t0\t__Secure-3PAPISID\tzzz\n\
broken line without tabs\n\
.youtube.com\tFALSE\t/\tFALSE\tnotanumber\tPREF\thl=en\n";
    let cookies = parse_netscape_cookies(content.to_string()).unwrap();
    assert_eq!(cookies.len(), 3);
    let first = cookies.at(0);
    assert_eq!(first.name, "SAPISID");
    assert_eq!(first.value, "abc123");
    assert_eq!(first.domain, ".youtube.com");
    assert!(first.secure);
    assert_eq!(first.expiration, 1893456000);
    assert!(!first.http_only);
    let second = cookies.at(1);
    assert_eq!(second.name, "__Secure-3PAPISID");
    // include-subdomains dots the domain
    assert_eq!(second.domain, ".youtube.com");
    assert!(second.http_only);
    let third = cookies.at(2);
    assert_eq!(third.name, "PREF");
    assert_eq!(third.expiration, 0);
}

#[test]
fn sid_cookies_follow_the_slot_precedence() {
    let set = DomainCookies::new(vec![plain_cookie("__Secure-3PAPISID", "three")]);
    let sids = get_sid_cookies(&set);
    assert_eq!(sids.yt_sapisid.as_ref().unwrap().value, "three");
    assert!(sids.yt_1psapisid.is_none());
    assert_eq!(sids.yt_3psapisid.as_ref().unwrap().value, "three");
}

#[test]
fn sid_authorization_embeds_the_hashed_timestamp() {
    let token = make_sid_authorization(
        "SAPISIDHASH",
        "sid_value",
        "https://www.youtube.com",
        &Vec::new(),
        1234567890,
    );
    let mut hasher = Sha1::new();
    hasher.update("1234567890 sid_value https://www.youtube.com".as_bytes());
    let digest = hasher.finalize();
    let mut hex = String::new();
    for b in digest.iter() {
        hex.push_str(&format!("{:02x}", b));
    }
    assert_eq!(token, format!("SAPISIDHASH 1234567890_{}", hex));
}

#[test]
fn sid_authorization_appends_the_session_part() {
    let token = make_sid_authorization(
        "SAPISID1PHASH",
        "sid",
        "https://www.youtube.com",
        &vec!["u=user1".to_string()],
        7,
    );
    assert!(token.starts_with("SAPISID1PHASH 7_"));
    assert!(token.ends_with("_u=user1"));
}

#[test]
fn data_sync_id_parses_its_three_shapes() {
    assert_eq!(
        parse_data_sync_id("A||B"),
        (Some("A".to_string()), Some("B".to_string()))
    );
    assert_eq!(parse_data_sync_id("A||"), (None, Some("A".to_string())));
    assert_eq!(parse_data_sync_id("A"), (None, Some("A".to_string())));
    assert_eq!(parse_data_sync_id(""), (None, None));
}

#[test]
fn compact_num_hits_the_thresholds_exactly() {
    assert_eq!(compact_num(1_000), "1.0K");
    assert_eq!(compact_num(1_000_000), "1.0M");
    assert_eq!(compact_num(1_000_000_000), "1.0B");
    assert_eq!(compact_num(999), "999");
    assert_eq!(compact_num(1_234), "1.2K");
    assert_eq!(compact_num(25_600_000), "25.6M");
}

#[test]
fn human_readable_size_steps_through_units() {
    assert_eq!(human_readable_size(500), "500B");
    assert_eq!(human_readable_size(1024), "1.00KiB");
    assert_eq!(human_readable_size(1536), "1.50KiB");
    assert_eq!(human_readable_size(1048576), "1.00MiB");
    assert_eq!(human_readable_size(1073741824), "1.00GiB");
}

#[test]
fn resolution_prints_both_sides_or_nothing() {
    assert_eq!(get_resolution(Some(1080), Some(1920)), "1080x1920");
    assert_eq!(get_resolution(None, Some(1920)), "");
    assert_eq!(get_resolution(Some(1080), None), "");
}

#[test]
fn parse_format_accepts_the_four_selectors() {
    assert_eq!(parse_format("bestaudio").unwrap(), Format::BestAudio);
    assert_eq!(parse_format("bestvideo").unwrap(), Format::BestVideo);
    assert_eq!(parse_format("worstaudio").unwrap(), Format::WorstAudio);
    assert_eq!(parse_format("worstvideo").unwrap(), Format::WorstVideo);
    assert_eq!(parse_format("best").unwrap_err(), TydleError::InvalidInput);
}

#[test]
fn client_names_round_trip() {
    assert_eq!(YtClient::from_str("web_safari"), YtClient::WebSafari);
    assert_eq!(YtClient::WebSafari.as_str(), "web_safari");
    assert_eq!(YtClient::WebSafari.get_base(), "web");
    assert_eq!(YtClient::WebSafari.get_variant(), "safari");
    assert_eq!(YtClient::TvEmbedded.get_variant(), "embedded");
    assert_eq!(YtClient::Tv.get_base(), "tv");
    // a name without an underscore has an empty variant
    assert_eq!(YtClient::Tv.get_variant(), "");
    assert_eq!(YtClient::Web.get_variant(), "");
    assert_eq!(YtClient::from_str("nonsense"), YtClient::Web);
}

#[test]
fn endpoint_and_protocol_names() {
    assert_eq!(YtEndpoint::Player.as_str(), "player");
    assert_eq!(YtEndpoint::Next.as_str(), "next");
    assert_eq!(StreamingProtocol::Https.as_str(), "https");
    assert_eq!(StreamingProtocol::Dash.as_str(), "dash");
    assert_eq!(StreamingProtocol::Hls.as_str(), "hls");
}

#[test]
fn split_and_trim_helpers_behave() {
    let cs: Vec<char> = "a\tb\t\tc".chars().collect();
    let parts = chars::split_char(&cs, '\t');
    let texts: Vec<String> = parts.iter().map(|p| p.iter().collect()).collect();
    assert_eq!(texts, vec!["a", "b", "", "c"]);
    let ws: Vec<char> = "  hi \r\n".chars().collect();
    let trimmed: String = chars::trim_chars(&ws).iter().collect();
    assert_eq!(trimmed, "hi");
    assert_eq!(chars::parse_u64(&"0042".chars().collect::<Vec<char>>()), Some(42));
    assert_eq!(chars::parse_u64(&"4x2".chars().collect::<Vec<char>>()), None);
    let lowered: String =
        chars::ascii_lower(&"MiXeD-09".chars().collect::<Vec<char>>()).iter().collect();
    assert_eq!(lowered, "mixed-09");
}

#[test]
fn cookie_auth_headers_follow_the_session_state() {
    let ytcfg = JsonVal::Obj(vec![("LOGGED_IN".to_string(), JsonVal::Bool(true))]);
    let sids = get_sid_cookies(&DomainCookies::new(vec![plain_cookie("SAPISID", "sid")]));
    let headers = generate_cookie_auth_headers(
        &ytcfg,
        Some("page-1".to_string()),
        None,
        Some(2),
        "https://www.youtube.com",
        &sids,
        42,
    );
    assert_eq!(headers[0], ("X-Goog-PageId".to_string(), "page-1".to_string()));
    assert_eq!(headers[1], ("X-Goog-AuthUser".to_string(), "2".to_string()));
    assert_eq!(headers[2].0, "Authorization");
    assert!(headers[2].1.starts_with("SAPISIDHASH 42_"));
    assert_eq!(headers[3], ("X-Origin".to_string(), "https://www.youtube.com".to_string()));
    assert_eq!(
        headers[4],
        ("X-Youtube-Bootstrap-Logged-In".to_string(), "true".to_string())
    );
    let bare = generate_cookie_auth_headers(
        &JsonVal::Obj(Vec::new()),
        None,
        None,
        None,
        "https://www.youtube.com",
        &get_sid_cookies(&DomainCookies::new(vec![])),
        42,
    );
    assert!(bare.is_empty());
}

#[test]
fn preference_value_forces_locale_and_zone() {
    assert_eq!(build_pref_value(None), "hl=en&tz=UTC");
    assert_eq!(build_pref_value(Some("hl=fr&f6=8")), "hl=en&f6=8&tz=UTC");
    let no_socs = DomainCookies::new(vec![]);
    assert!(needs_consent_cookie(&no_socs));
    let opted = DomainCookies::new(vec![plain_cookie("SOCS", "CAI")]);
    assert!(!needs_consent_cookie(&opted));
    let consent = DomainCookies::new(vec![plain_cookie("SOCS", "CAA1234")]);
    assert!(needs_consent_cookie(&consent));
}
