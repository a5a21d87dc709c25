use cloudflare_ddns::cloudflare::{api_url, ApiCall, DnsRecord, DnsRecordDelete, Method, Zone};
use cloudflare_ddns::json::{frame_record, record_body};

fn zone(name: &str, id: &str) -> Zone {
    Zone { name: name.to_string(), id: id.to_string() }
}

#[test]
fn url_stands_below_the_api_root() {
    assert_eq!(api_url("zones"), "https://api.cloudflare.com/client/v4/zones");
    assert_eq!(api_url(""), "https://api.cloudflare.com/client/v4/");
}

#[test]
fn list_zones_call_is_a_get_of_zones() {
    let call = ApiCall::list_zones();
    assert_eq!(call, ApiCall { method: Method::Get, route: "zones".to_string() });
    assert_eq!(call.url(), "https://api.cloudflare.com/client/v4/zones");
}

#[test]
fn list_a_records_call_names_the_zone_id() {
    let call = ApiCall::list_a_records(&zone("example.com", "abc123"));
    assert_eq!(
        call,
        ApiCall { method: Method::Get, route: "zones/abc123/dns_records?type=A".to_string() }
    );
}

#[test]
fn create_record_call_posts_the_body() {
    let call = ApiCall::create_record(&zone("example.com", "abc123"), "{}".to_string());
    assert_eq!(
        call,
        ApiCall {
            method: Method::Post { data: "{}".to_string() },
            route: "zones/abc123/dns_records".to_string(),
        }
    );
}

#[test]
fn delete_record_call_names_zone_and_record() {
    let call = ApiCall::delete_record(&zone("example.com", "abc123"), "r42");
    assert_eq!(
        call,
        ApiCall { method: Method::Delete, route: "zones/abc123/dns_records/r42".to_string() }
    );
    assert_eq!(call.url(), "https://api.cloudflare.com/client/v4/zones/abc123/dns_records/r42");
}

#[test]
fn clones_are_equal() {
    let z = zone("example.com", "z1");
    assert_eq!(z.clone(), z);
    let record = DnsRecord {
        name: "example.com".to_string(),
        content: "1.2.3.4".to_string(),
        id: Some("r1".to_string()),
        type_: "A".to_string(),
    };
    assert_eq!(record.clone(), record);
    let gone = DnsRecordDelete { id: "r1".to_string() };
    assert_eq!(gone.clone(), gone);
}

#[test]
fn frame_lays_out_the_four_fields() {
    assert_eq!(
        frame_record("\"n\"", "\"c\"", "null", "\"A\""),
        "{\"name\":\"n\",\"content\":\"c\",\"id\":null,\"type\":\"A\"}"
    );
}

#[test]
fn body_of_a_new_record() {
    let record = DnsRecord {
        name: "example.com".to_string(),
        content: "1.2.3.4".to_string(),
        id: None,
        type_: "A".to_string(),
    };
    assert_eq!(
        record_body(&record),
        Ok("{\"name\":\"example.com\",\"content\":\"1.2.3.4\",\"id\":null,\"type\":\"A\"}"
            .to_string())
    );
}

#[test]
fn body_of_a_record_with_id() {
    let record = DnsRecord {
        name: "example.com".to_string(),
        content: "1.2.3.4".to_string(),
        id: Some("r1".to_string()),
        type_: "A".to_string(),
    };
    assert_eq!(
        record_body(&record),
        Ok("{\"name\":\"example.com\",\"content\":\"1.2.3.4\",\"id\":\"r1\",\"type\":\"A\"}"
            .to_string())
    );
}

#[test]
fn body_escapes_what_json_reserves() {
    let record = DnsRecord {
        name: "a\"b\\c".to_string(),
        content: "line\nbreak".to_string(),
        id: None,
        type_: "A".to_string(),
    };
    assert_eq!(
        record_body(&record),
        Ok("{\"name\":\"a\\\"b\\\\c\",\"content\":\"line\\nbreak\",\"id\":null,\"type\":\"A\"}"
            .to_string())
    );
}

#[test]
fn body_reads_back_as_the_record() {
    let record = DnsRecord {
        name: "exämple \"quoted\".com".to_string(),
        content: "1.2.3.4\t".to_string(),
        id: Some("id/1".to_string()),
        type_: "A".to_string(),
    };
    let body = record_body(&record).unwrap();
    let value: serde_json::Value = serde_json::from_str(&body).unwrap();
    let object = value.as_object().unwrap();
    assert_eq!(object.len(), 4);
    assert_eq!(object.get("name").unwrap().as_str(), Some("exämple \"quoted\".com"));
    assert_eq!(object.get("content").unwrap().as_str(), Some("1.2.3.4\t"));
    assert_eq!(object.get("id").unwrap().as_str(), Some("id/1"));
    assert_eq!(object.get("type").unwrap().as_str(), Some("A"));
}

#[test]
fn absent_id_reads_back_as_null() {
    let record = DnsRecord {
        name: "example.com".to_string(),
        content: "1.2.3.4".to_string(),
        id: None,
        type_: "A".to_string(),
    };
    let body = record_body(&record).unwrap();
    let value: serde_json::Value = serde_json::from_str(&body).unwrap();
    assert!(value.as_object().unwrap().get("id").unwrap().is_null());
}

#[test]
fn body_comes_back_for_every_string() {
    let samples = ["", "\u{0}", "\u{1f}\u{7f}", "\"\\/", "\r\n\t", "日本語", "\u{1f600}", "\u{2028}\u{2029}"];
    for sample in samples {
        let record = DnsRecord {
            name: sample.to_string(),
            content: sample.to_string(),
            id: Some(sample.to_string()),
            type_: sample.to_string(),
        };
        let body = record_body(&record).unwrap();
        let value: serde_json::Value = serde_json::from_str(&body).unwrap();
        let object = value.as_object().unwrap();
        assert_eq!(object.get("name").unwrap().as_str(), Some(sample));
        assert_eq!(object.get("content").unwrap().as_str(), Some(sample));
        assert_eq!(object.get("id").unwrap().as_str(), Some(sample));
        assert_eq!(object.get("type").unwrap().as_str(), Some(sample));
    }
}
