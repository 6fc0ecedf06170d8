use tydle::client::YtClient;
use tydle::decipher::{
    build_solver_input, compose_signed_url, decipher_prepare, find_n_param, parse_solver_output,
    replace_n_sig_query_param, SignatureDecipher, SignatureType,
};
use tydle::cache::CacheStore;
use tydle::err::TydleError;
use tydle::ids::VideoId;
use tydle::jsonx::{find_key, parse_json, JsonVal};
use tydle::meta::YtChannel;
use tydle::miner::{extract_yt_initial_data, extract_ytcfg, search_json};
use tydle::orchestrator::{
    dedup_clients, get_clients, get_player_url, invalid_player_response, is_age_gated,
    is_unplayable, select_visitor_data, ClientLoopState,
};
use tydle::playerjs::{
    construct_player_url, extract_player_info, extract_sts_from_code, player_js_cache_key,
    resolve_signature_timestamp, PlayerIdentifier,
};
use tydle::jsonx::strip_member;
use tydle::requests::{build_api_url, build_player_request, generate_base_api_headers,
    select_context};
use tydle::client::YtEndpoint;
use tydle::streams::{extract_formats, format_stream, mime_type_to_ext, parse_codecs, Ext,
    YtStreamSource};
use tydle::urlq::convert_to_query_string;
use tydle::format::Format;
use tydle::streams::select_stream_index;

fn obj(members: Vec<(&str, JsonVal)>) -> JsonVal {
    JsonVal::Obj(members.into_iter().map(|(k, v)| (k.to_string(), v)).collect())
}

fn s(text: &str) -> JsonVal {
    JsonVal::Str(text.to_string())
}

#[test]
fn player_info_and_cache_key() {
    let url = "https://www.youtube.com/s/player/abcd1234/player_ias.vflset/en_US/base.js";
    assert_eq!(extract_player_info(url).unwrap(), "abcd1234");
    assert_eq!(
        player_js_cache_key(url).unwrap(),
        "abcd1234-/s/player/abcd1234/player_ias.vflset/en_US/base.js"
    );
    assert_eq!(
        extract_player_info("nothing useful").unwrap_err(),
        TydleError::PlayerIdentificationFailed
    );
}

#[test]
fn player_url_construction() {
    assert_eq!(
        construct_player_url(PlayerIdentifier::PlayerUrl("/s/player/x/base.js".to_string())),
        "https://www.youtube.com/s/player/x/base.js"
    );
    assert_eq!(
        construct_player_url(PlayerIdentifier::PlayerId("cafe0123".to_string())),
        "https://www.youtube.com/s/player/cafe0123/player_ias.vflset/en_US/base.js"
    );
}

#[test]
fn signature_timestamp_is_mined_from_code() {
    assert_eq!(extract_sts_from_code("var x=1;signatureTimestamp:19834,y:2"), Some(19834));
    assert_eq!(extract_sts_from_code("sts : 20123 ,"), Some(20123));
    assert_eq!(extract_sts_from_code("no timestamp here"), None);
}

#[test]
fn ytcfg_extraction_reads_the_sts() {
    let html = "<script>junk; ytcfg.set({\"STS\":19999}); more";
    let cfg = extract_ytcfg(html).unwrap();
    assert_eq!(cfg.get("STS").unwrap().as_i64(), Some(19999));
}

#[test]
fn ytcfg_extraction_defaults_to_empty() {
    let cfg = extract_ytcfg("<html>nothing here</html>").unwrap();
    match cfg {
        JsonVal::Obj(members) => assert_eq!(members.len(), 0),
        _ => panic!("expected an object"),
    }
}

#[test]
fn initial_data_is_required() {
    assert_eq!(
        extract_yt_initial_data("<html>no data</html>").unwrap_err(),
        TydleError::DataMissing
    );
    let html = "window[\"ytInitialData\"] = {\"contents\":{}};</script>";
    let data = extract_yt_initial_data(html).unwrap();
    assert!(data.get("contents").is_some());
}

#[test]
fn search_json_scans_balanced_braces() {
    let html = "before ytInitialPlayerResponse = {\"a\":{\"b\":\"}\"},\"c\":2}; after";
    let v = search_json("ytInitialPlayerResponse\\s*=", html);
    assert_eq!(v.get("c").unwrap().as_i64(), Some(2));
    match v.get("a").unwrap().get("b").unwrap() {
        JsonVal::Str(t) => assert_eq!(t, "}"),
        _ => panic!("expected a string"),
    }
}

#[test]
fn find_key_searches_depth_first() {
    let v = obj(vec![(
        "outer",
        obj(vec![("DATASYNC_ID", s("A||B")), ("other", JsonVal::Int(1))]),
    )]);
    assert_eq!(find_key(&v, "DATASYNC_ID"), Some("A||B".to_string()));
    assert_eq!(find_key(&v, "missing"), None);
}

#[test]
fn decipher_prepare_reads_the_signature_query() {
    let q = decipher_prepare("s=AAA&sp=sig&url=https%3A//host/p").unwrap();
    assert_eq!(q.url, "https://host/p");
    assert_eq!(q.s, "AAA");
    assert_eq!(q.sp, "sig");
    assert_eq!(
        decipher_prepare("sp=sig&url=https%3A//host/p").unwrap_err(),
        TydleError::InvalidInput
    );
}

#[test]
fn decipher_composes_the_signed_url() {
    // a mocked solver that reverses its input
    let solve = |input: &str| input.chars().rev().collect::<String>();
    let q = decipher_prepare("s=AAA&sp=sig&url=https%3A//host/p").unwrap();
    let deciphered = solve(&q.s);
    let signed = compose_signed_url(&q.url, &q.sp, &deciphered);
    assert_eq!(signed, "https://host/p&sig=AAA");
    assert_eq!(find_n_param(&signed), None);
}

#[test]
fn decipher_prepare_defaults_the_parameter_name() {
    let q = decipher_prepare("s=AB&url=https%3A//host/p").unwrap();
    assert_eq!(q.sp, "signature");
}

#[test]
fn n_parameter_is_rewritten_in_place() {
    let rewritten =
        replace_n_sig_query_param("https://host/p?a=1&n=abc&b=2", "xyz");
    assert_eq!(rewritten, "https://host/p?a=1&n=xyz&b=2");
    assert_eq!(replace_n_sig_query_param("https://host/plain", "xyz"), "https://host/plain");
}

#[test]
fn decipher_memo_keeps_the_first_value() {
    let mut d = SignatureDecipher::new(CacheStore::new(), CacheStore::new());
    let url = "https://www.youtube.com/s/player/abcd1234/player_ias.vflset/en_US/base.js";
    assert_eq!(d.cached_signature(SignatureType::Signature, "AAA", url), None);
    d.store_signature(SignatureType::Signature, "AAA", url, "BBB".to_string());
    assert_eq!(
        d.cached_signature(SignatureType::Signature, "AAA", url),
        Some("BBB".to_string())
    );
    d.store_signature(SignatureType::Signature, "AAA", url, "CCC".to_string());
    assert_eq!(
        d.cached_signature(SignatureType::Signature, "AAA", url),
        Some("BBB".to_string())
    );
    assert_eq!(d.cached_signature(SignatureType::Nsignature, "AAA", url), None);
    assert_eq!(d.cached_player_code(url).unwrap(), None);
    d.store_player_code(url, "player code".to_string()).unwrap();
    assert_eq!(d.cached_player_code(url).unwrap(), Some("player code".to_string()));
}

#[test]
fn mime_types_map_to_extensions() {
    assert_eq!(mime_type_to_ext("video/mp4; codecs=\"avc1\""), Ext::Mp4);
    assert_eq!(mime_type_to_ext("audio/mp4"), Ext::M4a);
    assert_eq!(mime_type_to_ext("application/vnd.apple.mpegurl"), Ext::M3u8);
    assert_eq!(mime_type_to_ext("application/x-mpegURL"), Ext::M3u8);
    assert_eq!(mime_type_to_ext("audio/webm"), Ext::Webm);
    assert_eq!(mime_type_to_ext("something/unheard-of"), Ext::Unknown);
    assert_eq!(Ext::Mp4.as_str(), "mp4");
    assert_eq!(Ext::ThreeGp.as_str(), "3gp");
}

#[test]
fn codecs_split_into_video_and_audio() {
    let (v, a) = parse_codecs("avc1.4d401f, mp4a.40.2").unwrap();
    assert_eq!(v, Some("avc1.4d401f".to_string()));
    assert_eq!(a, Some("mp4a.40.2".to_string()));
    let (v2, a2) = parse_codecs("opus").unwrap();
    assert_eq!(v2, None);
    assert_eq!(a2, Some("opus".to_string()));
    let (v3, a3) = parse_codecs("").unwrap();
    assert_eq!(v3, None);
    assert_eq!(a3, None);
    // leading zeros of numeric parameter segments are stripped
    let (v4, _) = parse_codecs("AVC1.004D401F.08").unwrap();
    assert_eq!(v4, Some("avc1.004D401F.8".to_string()));
}

#[test]
fn the_reducer_emits_codecs_and_extension() {
    let fmt = obj(vec![
        ("itag", JsonVal::Int(22)),
        ("mimeType", s("video/mp4; codecs=\"avc1.4d401f, mp4a.40.2\"")),
        ("url", s("https://example.invalid/stream")),
        ("quality", s("hd720")),
    ]);
    let stream = format_stream(YtClient::Web, &fmt).unwrap();
    assert_eq!(stream.codec.vcodec, Some("avc1.4d401f".to_string()));
    assert_eq!(stream.codec.acodec, Some("mp4a.40.2".to_string()));
    assert!(matches!(stream.ext, Ext::Mp4));
    assert_eq!(stream.quality, "hd720");
    assert_eq!(stream.itag, Some(22));
    assert!(matches!(stream.source, YtStreamSource::URL(u) if u == "https://example.invalid/stream"));
}

#[test]
fn itag_17_is_forced_to_tiny() {
    let fmt = obj(vec![
        ("itag", s("17")),
        ("quality", s("small")),
        ("url", s("u")),
    ]);
    let stream = format_stream(YtClient::Web, &fmt).unwrap();
    assert_eq!(stream.quality, "tiny");
}

#[test]
fn livestream_segments_are_filtered() {
    let live = obj(vec![("targetDurationSec", JsonVal::Int(5)), ("url", s("u"))]);
    assert!(format_stream(YtClient::Web, &live).is_none());
    let pr = obj(vec![(
        "streamingData",
        obj(vec![(
            "formats",
            JsonVal::Arr(vec![
                obj(vec![("targetDurationSec", JsonVal::Int(5)), ("url", s("u"))]),
                obj(vec![("itag", JsonVal::Int(18)), ("url", s("u18")), ("quality", s("medium"))]),
            ]),
        )]),
    )]);
    let streams = extract_formats(&vec![(YtClient::Web, pr)]);
    assert_eq!(streams.len(), 1);
    assert_eq!(streams[0].itag, Some(18));
}

#[test]
fn signature_cipher_formats_keep_their_blob() {
    let fmt = obj(vec![("signatureCipher", s("s=XX&sp=sig&url=u"))]);
    let stream = format_stream(YtClient::Web, &fmt).unwrap();
    assert!(matches!(stream.source, YtStreamSource::Signature(sc) if sc == "s=XX&sp=sig&url=u"));
}

#[test]
fn tbr_falls_back_to_bitrate_then_a_thousand() {
    let fmt = obj(vec![("url", s("u")), ("bitrate", JsonVal::Int(128000))]);
    assert_eq!(format_stream(YtClient::Web, &fmt).unwrap().tbr, 128000);
    let bare = obj(vec![("url", s("u"))]);
    assert_eq!(format_stream(YtClient::Web, &bare).unwrap().tbr, 1000);
}

#[test]
fn clients_are_deduplicated_in_first_occurrence_order() {
    let picked = dedup_clients(&vec![
        YtClient::Web,
        YtClient::Tv,
        YtClient::Web,
        YtClient::WebSafari,
        YtClient::Tv,
    ]);
    assert_eq!(picked, vec![YtClient::Web, YtClient::Tv, YtClient::WebSafari]);
}

#[test]
fn client_selection_matches_the_posture() {
    assert_eq!(
        get_clients(false, false, false),
        vec![YtClient::AndroidSdkless, YtClient::Tv, YtClient::WebSafari, YtClient::Web]
    );
    assert_eq!(
        get_clients(false, true, false),
        vec![YtClient::Tv, YtClient::WebSafari, YtClient::Web]
    );
    assert_eq!(
        get_clients(true, true, false),
        vec![YtClient::Tv, YtClient::WebCreator, YtClient::WebSafari, YtClient::Web]
    );
    assert_eq!(
        get_clients(false, true, true),
        vec![YtClient::Tv, YtClient::WebSafari, YtClient::Web, YtClient::WebMusic]
    );
}

#[test]
fn age_gate_detection_reads_the_reasons() {
    let gated = obj(vec![(
        "playabilityStatus",
        obj(vec![("desktopLegacyAgeGateReason", JsonVal::Int(1))]),
    )]);
    assert!(is_age_gated(&gated));
    let reason = obj(vec![(
        "playabilityStatus",
        obj(vec![(
            "status",
            obj(vec![("reason", JsonVal::Arr(vec![s("this video is age-restricted")]))]),
        )]),
    )]);
    assert!(is_age_gated(&reason));
    let fine = obj(vec![("playabilityStatus", obj(vec![("status", s("OK"))]))]);
    assert!(!is_age_gated(&fine));
}

#[test]
fn unplayable_status_is_detected() {
    let pr = obj(vec![("playabilityStatus", obj(vec![("status", s("UNPLAYABLE"))]))]);
    assert!(is_unplayable(&pr));
    let ok = obj(vec![("playabilityStatus", obj(vec![("status", s("OK"))]))]);
    assert!(!is_unplayable(&ok));
}

#[test]
fn wrong_video_ids_are_reported() {
    let id = VideoId::new("UWn9RdueB7E").unwrap();
    let pr = obj(vec![("videoDetails", obj(vec![("videoId", s("UWn9RdueB7E"))]))]);
    assert_eq!(invalid_player_response(&pr, &id), None);
    let other = obj(vec![("videoDetails", obj(vec![("videoId", s("dQw4w9WgXcQ"))]))]);
    assert_eq!(invalid_player_response(&other, &id), Some("dQw4w9WgXcQ".to_string()));
}

#[test]
fn an_age_gated_response_schedules_the_embedded_fallback() {
    let id = VideoId::new("UWn9RdueB7E").unwrap();
    let clients = vec![YtClient::AndroidSdkless, YtClient::Tv];
    let mut state = ClientLoopState::start(&clients);
    let first = state.next_client().unwrap();
    assert_eq!(first, YtClient::AndroidSdkless);
    let gated = obj(vec![
        ("videoDetails", obj(vec![("videoId", s("UWn9RdueB7E"))])),
        (
            "playabilityStatus",
            obj(vec![("desktopLegacyAgeGateReason", JsonVal::Int(1))]),
        ),
    ]);
    state.step(first, gated, &id, false);
    assert_eq!(state.accepted.len(), 1);
    // the embedded web client is now on top of the stack
    let next = state.next_client().unwrap();
    assert_eq!(next, YtClient::WebEmbedded);
}

#[test]
fn an_invalid_response_is_skipped() {
    let id = VideoId::new("UWn9RdueB7E").unwrap();
    let clients = vec![YtClient::Web];
    let mut state = ClientLoopState::start(&clients);
    let c = state.next_client().unwrap();
    let wrong = obj(vec![("videoDetails", obj(vec![("videoId", s("dQw4w9WgXcQ"))]))]);
    state.step(c, wrong, &id, false);
    assert_eq!(state.accepted.len(), 0);
    assert_eq!(state.next_client(), None);
}

#[test]
fn player_url_resolution_prefers_the_config() {
    let cfg = obj(vec![("PLAYER_JS_URL", s("/s/player/x/base.js"))]);
    assert_eq!(
        get_player_url(&[&cfg]),
        Some("https://www.youtube.com/s/player/x/base.js".to_string())
    );
    let web = obj(vec![(
        "WEB_PLAYER_CONTEXT_CONFIGS",
        obj(vec![("SOME_CONFIG", obj(vec![("jsUrl", s("/s/player/y/base.js"))]))]),
    )]);
    assert_eq!(
        get_player_url(&[&web]),
        Some("https://www.youtube.com/s/player/y/base.js".to_string())
    );
    let none = obj(vec![]);
    assert_eq!(get_player_url(&[&none]), None);
}

#[test]
fn visitor_data_falls_back_through_the_blobs() {
    let direct = obj(vec![("VISITOR_DATA", s("v1"))]);
    assert_eq!(select_visitor_data(&[&direct]), Some("v1".to_string()));
    let nested = obj(vec![(
        "INNERTUBE_CONTEXT",
        obj(vec![("client", obj(vec![("visitorData", s("v2"))]))]),
    )]);
    assert_eq!(select_visitor_data(&[&nested]), Some("v2".to_string()));
    let rc = obj(vec![("responseContext", obj(vec![("visitorData", s("v3"))]))]);
    assert_eq!(select_visitor_data(&[&obj(vec![]), &rc]), Some("v3".to_string()));
}

#[test]
fn the_player_request_carries_the_video_and_flags() {
    let id = VideoId::new("UWn9RdueB7E").unwrap();
    let body = build_player_request(&id, Some("tok".to_string()), Some(19999));
    let as_obj = JsonVal::Obj(body);
    match as_obj.get("videoId").unwrap() {
        JsonVal::Str(t) => assert_eq!(t, "UWn9RdueB7E"),
        _ => panic!("expected a string"),
    }
    let dims = as_obj.get("serviceIntegrityDimensions").unwrap();
    match dims.get("poToken").unwrap() {
        JsonVal::Str(t) => assert_eq!(t, "tok"),
        _ => panic!("expected a string"),
    }
    let pc = as_obj.get("playbackContext").unwrap();
    let cpc = pc.get("contentPlaybackContext").unwrap();
    assert_eq!(cpc.get("signatureTimestamp").unwrap().as_i64(), Some(19999));
    assert_eq!(as_obj.get("contentCheckOk").unwrap().as_bool(), Some(true));
    assert_eq!(as_obj.get("racyCheckOk").unwrap().as_bool(), Some(true));
}

#[test]
fn query_strings_round_trip_through_the_encoder() {
    let encoded = convert_to_query_string(&vec![
        ("hl".to_string(), "en".to_string()),
        ("tz".to_string(), "UTC".to_string()),
    ]);
    assert_eq!(encoded, "hl=en&tz=UTC");
    let spaced = convert_to_query_string(&vec![("q".to_string(), "a b".to_string())]);
    assert_eq!(spaced, "q=a+b");
}

#[test]
fn channel_ids_are_validated() {
    let c = YtChannel::new("UCuAXFkgsw1L7xaCfnd5JJOw", None).unwrap();
    assert_eq!(c.get_id(), "UCuAXFkgsw1L7xaCfnd5JJOw");
    assert_eq!(c.get_url(), "https://www.youtube.com/channel/UCuAXFkgsw1L7xaCfnd5JJOw");
    assert_eq!(
        YtChannel::new("XCuAXFkgsw1L7xaCfnd5JJOw", None).unwrap_err(),
        TydleError::InvalidInput
    );
    assert_eq!(YtChannel::new("UCshort", None).unwrap_err(), TydleError::InvalidInput);
}

#[test]
fn parsed_json_models_the_members_in_order() {
    let v = parse_json("{\"b\":1,\"a\":\"x\",\"arr\":[1,null,true]}").unwrap();
    assert_eq!(v.get("b").unwrap().as_i64(), Some(1));
    match v.get("arr").unwrap() {
        JsonVal::Arr(items) => {
            assert_eq!(items.len(), 3);
            assert!(items[1].is_null());
            assert_eq!(items[2].as_bool(), Some(true));
        },
        _ => panic!("expected an array"),
    }
    assert!(parse_json("{broken").is_none());
}

#[test]
fn context_assembly_overwrites_locale_and_zone() {
    let mined = obj(vec![
        ("clientName", s("WEB")),
        ("hl", s("fr")),
        ("visitorData", s("v")),
    ]);
    let ctx = select_context(Some(mined), YtClient::Web, false);
    assert_eq!(ctx.get("hl").unwrap().as_str(), Some("en"));
    assert_eq!(ctx.get("timeZone").unwrap().as_str(), Some("UTC"));
    assert_eq!(ctx.get("utcOffsetMinutes").unwrap().as_i64(), Some(0));
    assert_eq!(ctx.get("visitorData").unwrap().as_str(), Some("v"));
    let default_ctx = select_context(None, YtClient::Tv, false);
    assert_eq!(default_ctx.get("clientName").unwrap().as_str(), Some("TVHTML5"));
    assert_eq!(default_ctx.get("clientVersion").unwrap().as_str(), Some("7.20250923.13.00"));
    assert_eq!(default_ctx.get("hl").unwrap().as_str(), Some("en"));
}

#[test]
fn api_urls_name_host_and_endpoint() {
    assert_eq!(
        build_api_url("www.youtube.com", YtEndpoint::Player),
        "https://www.youtube.com/youtubei/v1/player"
    );
    let headers = generate_base_api_headers(YtClient::Web);
    assert_eq!(headers[0].0, "X-YouTube-Client-Name");
    assert_eq!(headers[0].1, "1");
    assert_eq!(headers[2].0, "Origin");
    assert_eq!(headers[2].1, "https://www.youtube.com");
}

#[test]
fn stream_selection_picks_by_kind_and_bitrate() {
    let video_lo = obj(vec![
        ("url", s("v-lo")),
        ("bitrate", JsonVal::Int(100)),
        ("mimeType", s("video/mp4; codecs=\"avc1\"")),
    ]);
    let video_hi = obj(vec![
        ("url", s("v-hi")),
        ("bitrate", JsonVal::Int(900)),
        ("mimeType", s("video/mp4; codecs=\"avc1\"")),
    ]);
    let audio = obj(vec![
        ("url", s("a")),
        ("bitrate", JsonVal::Int(500)),
        ("mimeType", s("audio/mp4; codecs=\"mp4a.40.2\"")),
    ]);
    let streams: Vec<_> = [video_lo, video_hi, audio]
        .into_iter()
        .filter_map(|f| format_stream(YtClient::Web, &f))
        .collect();
    assert_eq!(select_stream_index(&streams, Format::BestVideo), Some(1));
    assert_eq!(select_stream_index(&streams, Format::WorstVideo), Some(0));
    assert_eq!(select_stream_index(&streams, Format::BestAudio), Some(2));
    assert_eq!(select_stream_index(&streams, Format::WorstAudio), Some(2));
    let none: Vec<tydle::streams::YtStream> = Vec::new();
    assert_eq!(select_stream_index(&none, Format::BestAudio), None);
}

#[test]
fn solver_input_has_the_agreed_shape() {
    let input = build_solver_input("var player;", SignatureType::Signature, "AAA");
    let as_obj = JsonVal::Obj(input);
    assert_eq!(as_obj.get("type").unwrap().as_str(), Some("player"));
    assert_eq!(as_obj.get("player").unwrap().as_str(), Some("var player;"));
    assert_eq!(as_obj.get("output_preprocessed").unwrap().as_bool(), Some(true));
    let requests = as_obj.get("requests").unwrap().as_arr().unwrap();
    assert_eq!(requests.len(), 1);
    assert_eq!(requests[0].get("type").unwrap().as_str(), Some("sig"));
    let challenges = requests[0].get("challenges").unwrap().as_arr().unwrap();
    assert_eq!(challenges.len(), 1);
    assert_eq!(challenges[0].as_str(), Some("AAA"));
}

#[test]
fn solver_output_yields_the_example_entry() {
    let response = obj(vec![(
        "responses",
        JsonVal::Arr(vec![obj(vec![("data", obj(vec![("AAA", s("deciphered"))]))])]),
    )]);
    assert_eq!(parse_solver_output(&response, "AAA").unwrap(), "deciphered");
    assert_eq!(
        parse_solver_output(&response, "BBB").unwrap_err(),
        TydleError::DecipherFailed
    );
    let malformed = obj(vec![("responses", s("not an array"))]);
    assert_eq!(
        parse_solver_output(&malformed, "AAA").unwrap_err(),
        TydleError::DecipherFailed
    );
}

#[test]
fn signature_timestamp_precedence_is_kept() {
    let cfg_with = obj(vec![("STS", JsonVal::Int(19999))]);
    let cfg_without = obj(vec![]);
    assert_eq!(
        resolve_signature_timestamp(&cfg_with, Some("11111"), Some("sts:22222,")).unwrap(),
        Some(19999)
    );
    assert_eq!(
        resolve_signature_timestamp(&cfg_without, Some("11111"), Some("sts:22222,")).unwrap(),
        Some(11111)
    );
    assert_eq!(
        resolve_signature_timestamp(&cfg_without, None, Some("sts:22222,")).unwrap(),
        Some(22222)
    );
    assert_eq!(resolve_signature_timestamp(&cfg_without, None, None).unwrap(), None);
    assert_eq!(
        resolve_signature_timestamp(&cfg_without, Some("not a number"), None).unwrap_err(),
        TydleError::DecodeError
    );
}

#[test]
fn strip_member_removes_exactly_the_named_member() {
    let pr = obj(vec![
        ("videoDetails", obj(vec![("videoId", s("UWn9RdueB7E"))])),
        ("streamingData", obj(vec![("formats", JsonVal::Arr(vec![]))])),
        ("other", JsonVal::Int(1)),
    ]);
    let stripped = strip_member(pr, "streamingData");
    assert!(stripped.get("streamingData").is_none());
    assert!(stripped.get("videoDetails").is_some());
    assert_eq!(stripped.get("other").unwrap().as_i64(), Some(1));
    let passthrough = strip_member(s("text"), "streamingData");
    assert_eq!(passthrough.as_str(), Some("text"));
}

