use kuai_saver::database::{default_ssl_mode, DatabaseSettings};
use kuai_saver::error::{get_translator, AppError, TranslateError};
use kuai_saver::params::upsert_param;
use kuai_saver::pdd::Pdd;
use kuai_saver::pdd::{GoodInfo, GoodsItem, GoodsSearchResponse, PddGoodsSearchResponse};
use kuai_saver::platform::{contains_text, identify_platform, Platform};
use kuai_saver::settings::{text_eq, Environment};
use kuai_saver::signature::{generate_signature, signature_from_digest, signing_text, sort_texts, text_less};

fn pairs(items: &[(&str, &str)]) -> Vec<(String, String)> {
    items.iter().map(|(k, v)| (k.to_string(), v.to_string())).collect()
}

fn value_of<'a>(params: &'a [(String, String)], key: &str) -> Option<&'a str> {
    params.iter().find(|(k, _)| k == key).map(|(_, v)| v.as_str())
}

fn pdd() -> Pdd {
    Pdd {
        domain: "https://gw-api.pinduoduo.com/api/router".to_string(),
        client_id: "ID".to_string(),
        client_secret: "SECRET".to_string(),
        pid: "pid-7".to_string(),
        api_good_search: "pdd.ddk.goods.search".to_string(),
        api_gen_short_url: "pdd.ddk.goods.zs.unit.url.gen".to_string(),
    }
}

#[test]
fn identify_platform_by_domain() {
    assert_eq!(identify_platform("https://mobile.yangkeduo.com/goods.html?goods_id=1"), Some(Platform::Pdd));
    assert_eq!(identify_platform("https://www.pinduoduo.com/x"), Some(Platform::Pdd));
    assert_eq!(identify_platform("pdd.com"), Some(Platform::Pdd));
    assert_eq!(identify_platform("https://item.taobao.com/item.htm"), None);
    assert_eq!(identify_platform(""), None);
    assert_eq!(identify_platform("pdd.co"), None);
}

#[test]
fn substring_search() {
    assert!(contains_text("abcabd", "abd"));
    assert!(contains_text("abc", ""));
    assert!(!contains_text("ab", "abc"));
    assert!(!contains_text("aXbc", "abc"));
    assert!(text_eq("héllo", "héllo"));
    assert!(!text_eq("hello", "hell"));
}

#[test]
fn translator_selection() {
    assert_eq!(get_translator("https://mobile.yangkeduo.com/g"), Ok(Platform::Pdd));
    let err = get_translator("https://example.com").unwrap_err();
    assert_eq!(err, AppError::Translate(TranslateError::UnsupportedPlatform("平台暂不支持".to_string())));
    assert_eq!(err.status_code(), 501);
    assert_eq!(err.message(), "转链错误: 平台不支持: 平台暂不支持");
}

#[test]
fn error_messages_and_statuses() {
    assert_eq!(AppError::Internal("x".to_string()).message(), "服务器内部错误: x");
    assert_eq!(AppError::Unknown("y".to_string()).message(), "未知错误: y");
    assert_eq!(AppError::Unknown("y".to_string()).status_code(), 500);
    let req = AppError::from(TranslateError::Request("timeout".to_string()));
    assert_eq!(req.message(), "转链错误: HTTP请求失败: timeout");
    assert_eq!(req.status_code(), 500);
    assert_eq!(TranslateError::Internal("z".to_string()).message(), "服务器内部错误: z");
}

#[test]
fn good_info_from_first_item() {
    let item = GoodsItem { promotion_rate: 120, predict_promotion_rate: 80, coupon_discount: 300, min_group_price: 1999 };
    let g = GoodInfo::from_item(&item);
    assert_eq!(g.coupon_discount_price, 1699);
    assert_eq!(g.origin_price, 1999);
    assert_eq!(g.promotion_rate, 120);
    assert_eq!(g.predict_promotion_rate, 80);
    assert_eq!(g.activity_promotion_rate, 0);
    assert_eq!(g.short_url, "");
    let other = GoodsItem { promotion_rate: 1, predict_promotion_rate: 1, coupon_discount: 0, min_group_price: 5 };
    let resp = PddGoodsSearchResponse { goods_search_response: GoodsSearchResponse { goods_list: vec![item, other] } };
    assert_eq!(resp.first_good_info(), Ok(g));
    let none = PddGoodsSearchResponse { goods_search_response: GoodsSearchResponse { goods_list: vec![] } };
    assert_eq!(none.first_good_info(), Err(TranslateError::Internal("未找到商品".to_string())));
}

#[test]
fn hex_of_digest() {
    let digest = vec![0xd4, 0x1d, 0x8c, 0xd9, 0x8f, 0x00, 0xb2, 0x04, 0xe9, 0x80, 0x09, 0x98, 0xec, 0xf8, 0x42, 0x7e];
    assert_eq!(signature_from_digest(&digest), "D41D8CD98F00B204E9800998ECF8427E");
    assert_eq!(signature_from_digest(&vec![]), "");
}

#[test]
fn signing_text_sorts_pairs() {
    let params = pairs(&[("timestamp", "1"), ("client_id", "abc"), ("b", "2")]);
    assert_eq!(signing_text(&params, "S"), "Sb2client_idabctimestamp1S");
    assert!(text_less("a", "b"));
    assert!(text_less("ab", "abc"));
    assert!(!text_less("abc", "ab"));
    assert!(!text_less("x", "x"));
    let sorted = sort_texts(&vec!["pid".to_string(), "b".to_string(), "a".to_string(), "b".to_string()]);
    assert_eq!(sorted, vec!["a", "b", "b", "pid"]);
}

#[test]
fn signature_is_upper_hex_md5() {
    assert_eq!(generate_signature(&vec![], ""), "D41D8CD98F00B204E9800998ECF8427E");
    let params = pairs(&[("b", "2"), ("a", "1")]);
    assert_eq!(generate_signature(&params, "s"), "5EE29085AF57D942F21F1C5BA3C2A90A");
    assert_eq!(generate_signature(&pairs(&[("k", "å")]), "密").len(), 32);
    let forward = pairs(&[("pid", "7"), ("a", "1"), ("type", "x"), ("a", "1")]);
    let mut backward = forward.clone();
    backward.reverse();
    assert_eq!(generate_signature(&forward, "s"), generate_signature(&backward, "s"));
}

#[test]
fn upsert_replaces_or_appends() {
    let mut p = pairs(&[("a", "1")]);
    upsert_param(&mut p, "b".to_string(), "2".to_string());
    upsert_param(&mut p, "a".to_string(), "3".to_string());
    assert_eq!(p, pairs(&[("a", "3"), ("b", "2")]));
}

#[test]
fn request_parameters_are_signed() {
    let extra = pairs(&[("keyword", "https://mobile.yangkeduo.com/goods.html?goods_id=1"), ("pid", "pid-7")]);
    let api = pdd();
    let unsigned = api.request_params("pdd.ddk.goods.search", "1700000000", &extra);
    assert_eq!(unsigned.len(), 7);
    assert_eq!(value_of(&unsigned, "client_id"), Some("ID"));
    assert_eq!(value_of(&unsigned, "client_secret"), Some("SECRET"));
    assert_eq!(value_of(&unsigned, "type"), Some("pdd.ddk.goods.search"));
    assert_eq!(value_of(&unsigned, "timestamp"), Some("1700000000"));
    assert_eq!(value_of(&unsigned, "data_type"), Some("JSON"));
    assert_eq!(value_of(&unsigned, "pid"), Some("pid-7"));
    let signed = api.signed_params("pdd.ddk.goods.search", "1700000000", &extra);
    assert_eq!(signed.len(), 8);
    assert_eq!(value_of(&signed, "sign"), Some("E58EF1207AF725BADD27C1E7279B5F01"));
    let overriding = api.request_params("t", "0", &pairs(&[("data_type", "XML")]));
    assert_eq!(overriding.len(), 5);
    assert_eq!(value_of(&overriding, "data_type"), Some("XML"));
}

#[test]
fn database_url_and_pool() {
    let db = DatabaseSettings {
        host: "localhost".to_string(),
        port: 5432,
        database: "kuai".to_string(),
        username: "app".to_string(),
        password: "pw".to_string(),
        ssl_mode: default_ssl_mode(),
    };
    assert!(!db.ssl_mode);
    assert_eq!(db.connection_url(), "postgres://app:pw@localhost:5432/kuai");
    let pool = db.build();
    assert_eq!(pool.url, "postgres://app:pw@localhost:5432/kuai");
    assert_eq!((pool.max_connections, pool.min_connections), (100, 5));
    assert_eq!(pool.connect_timeout_secs, 8);
    assert_eq!(pool.max_lifetime_secs, 8);
    assert!(!pool.sql_logging);
    assert_eq!(pool.sql_logging_level, kuai_saver::level::LevelDef::ERROR);
    assert_eq!(pool.schema_search_path, "./schema");
}

#[test]
fn environment_names() {
    assert_eq!(Environment::parse_or_default("production"), Environment::Production);
    assert_eq!(Environment::parse_or_default("local"), Environment::Local);
    assert_eq!(Environment::parse_or_default("staging"), Environment::Local);
    assert_eq!(Environment::parse("Production"), None);
    assert_eq!(Environment::default(), Environment::Local);
    assert_eq!(Environment::Production.settings_file_name(), "production.yaml");
    assert_eq!(Environment::Local.as_str(), "local");
}
