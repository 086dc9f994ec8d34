//! Normalisation of raw RDAP JSON into typed responses.

use rdapify::http::normalizer::{extract_registrar, extract_vcard_name};
use rdapify::{IpVersion, JsonNumber, JsonValue, Normalizer, RdapRole, RdapStatus};

fn to_json(v: serde_json::Value) -> JsonValue {
    match v {
        serde_json::Value::Null => JsonValue::Null,
        serde_json::Value::Bool(b) => JsonValue::Bool(b),
        serde_json::Value::Number(n) => {
            if let Some(u) = n.as_u64() {
                JsonValue::Number(JsonNumber::PosInt(u))
            } else if let Some(i) = n.as_i64() {
                JsonValue::Number(JsonNumber::NegInt(i))
            } else {
                JsonValue::Number(JsonNumber::Float(n.to_string()))
            }
        }
        serde_json::Value::String(s) => JsonValue::String(s),
        serde_json::Value::Array(a) => JsonValue::Array(a.into_iter().map(to_json).collect()),
        serde_json::Value::Object(m) => {
            JsonValue::Object(m.into_iter().map(|(k, v)| (k, to_json(v))).collect())
        }
    }
}

fn json(text: &str) -> JsonValue {
    to_json(serde_json::from_str(text).unwrap())
}

fn norm() -> Normalizer {
    Normalizer::new()
}

// ── domain ────────────────────────────────────────────────────────────────────

#[test]
fn domain_basic_fields() {
    let raw = json(
        r#"{
            "ldhName": "EXAMPLE.COM",
            "unicodeName": "example.com",
            "handle": "DOMAIN-HANDLE-1",
            "status": ["active"],
            "nameservers": [
                { "ldhName": "NS1.EXAMPLE.COM" },
                { "ldhName": "NS2.EXAMPLE.COM" }
            ]
        }"#,
    );
    let res = norm().domain("example.com", raw, "https://rdap.example/", false).unwrap();

    assert_eq!(res.query, "example.com");
    assert_eq!(res.ldh_name.as_deref(), Some("EXAMPLE.COM"));
    assert_eq!(res.unicode_name.as_deref(), Some("example.com"));
    assert_eq!(res.handle.as_deref(), Some("DOMAIN-HANDLE-1"));
    assert!(res.is_active());
    assert_eq!(res.nameservers, vec!["ns1.example.com", "ns2.example.com"]);
    assert!(!res.meta.cached);
    assert_eq!(res.meta.source, "https://rdap.example/");
}

#[test]
fn domain_cached_flag_propagates() {
    let raw = json(r#"{ "ldhName": "EXAMPLE.COM" }"#);
    let res = norm().domain("example.com", raw, "https://rdap.example/", true).unwrap();
    assert!(res.meta.cached);
}

#[test]
fn domain_missing_optional_fields_are_none() {
    let raw = json("{}");
    let res = norm().domain("example.com", raw, "https://rdap.example/", false).unwrap();
    assert!(res.ldh_name.is_none());
    assert!(res.unicode_name.is_none());
    assert!(res.handle.is_none());
    assert!(res.registrar.is_none());
    assert!(res.nameservers.is_empty());
    assert!(res.status.is_empty());
}

#[test]
fn domain_nameservers_normalised_to_lowercase() {
    // The second nameserver has no ldhName and falls back to unicodeName.
    let raw = json(
        r#"{
            "nameservers": [
                { "ldhName": "NS1.UPPER.COM" },
                { "unicodeName": "NS2.UPPER.COM" }
            ]
        }"#,
    );
    let res = norm().domain("upper.com", raw, "s", false).unwrap();
    assert_eq!(res.nameservers, vec!["ns1.upper.com", "ns2.upper.com"]);
}

#[test]
fn domain_events_expiration_and_registration() {
    let raw = json(
        r#"{
            "events": [
                { "eventAction": "registration", "eventDate": "2010-01-01T00:00:00Z" },
                { "eventAction": "expiration",   "eventDate": "2030-01-01T00:00:00Z" }
            ]
        }"#,
    );
    let res = norm().domain("example.com", raw, "s", false).unwrap();
    assert_eq!(res.registration_date(), Some("2010-01-01T00:00:00Z"));
    assert_eq!(res.expiration_date(), Some("2030-01-01T00:00:00Z"));
}

#[test]
fn domain_is_active_false_when_no_active_status() {
    let raw = json(r#"{ "status": ["locked", "transfer prohibited"] }"#);
    let res = norm().domain("example.com", raw, "s", false).unwrap();
    assert!(!res.is_active());
}

#[test]
fn domain_registrar_extracted_from_entities() {
    let raw = json(
        r#"{
            "entities": [{
                "handle": "REG-123",
                "roles": ["registrar"],
                "links": [{ "href": "https://registrar.example/", "rel": "self" }],
                "vcardArray": ["vcard", [
                    ["version", {}, "text", "4.0"],
                    ["fn",      {}, "text", "ACME Registrar Inc"]
                ]]
            }]
        }"#,
    );
    let res = norm().domain("example.com", raw, "s", false).unwrap();
    let reg = res.registrar.unwrap();
    assert_eq!(reg.handle.as_deref(), Some("REG-123"));
    assert_eq!(reg.name.as_deref(), Some("ACME Registrar Inc"));
    assert_eq!(reg.url.as_deref(), Some("https://registrar.example/"));
}

#[test]
fn domain_no_registrar_when_no_registrar_entity() {
    let raw = json(r#"{ "entities": [{ "handle": "TECH-1", "roles": ["technical"] }] }"#);
    let res = norm().domain("example.com", raw, "s", false).unwrap();
    assert!(res.registrar.is_none());
}

#[test]
fn domain_non_object_json_returns_error() {
    let res = norm().domain("example.com", json("[1, 2, 3]"), "s", false);
    assert!(res.is_err());
}

// ── ip ────────────────────────────────────────────────────────────────────────

#[test]
fn ip_basic_v4_fields() {
    let raw = json(
        r#"{
            "handle": "NET-192-0-2-0-1",
            "startAddress": "192.0.2.0",
            "endAddress": "192.0.2.255",
            "ipVersion": "v4",
            "name": "TEST-NET",
            "type": "ALLOCATED",
            "country": "US",
            "parentHandle": "NET-192-0-0-0-0"
        }"#,
    );
    let res = norm().ip("192.0.2.0/24", raw, "https://rdap.arin.net/", false).unwrap();

    assert_eq!(res.query, "192.0.2.0/24");
    assert_eq!(res.handle.as_deref(), Some("NET-192-0-2-0-1"));
    assert_eq!(res.start_address.as_deref(), Some("192.0.2.0"));
    assert_eq!(res.end_address.as_deref(), Some("192.0.2.255"));
    assert_eq!(res.ip_version, Some(IpVersion::V4));
    assert_eq!(res.name.as_deref(), Some("TEST-NET"));
    assert_eq!(res.country.as_deref(), Some("US"));
    assert_eq!(res.parent_handle.as_deref(), Some("NET-192-0-0-0-0"));
}

#[test]
fn ip_v6_detected_from_ip_version_field() {
    let raw = json(r#"{ "ipVersion": "v6", "startAddress": "2001:db8::" }"#);
    let res = norm().ip("2001:db8::/32", raw, "s", false).unwrap();
    assert_eq!(res.ip_version, Some(IpVersion::V6));
}

#[test]
fn ip_unknown_version_treated_as_v6() {
    let raw = json(r#"{ "ipVersion": "v99" }"#);
    let res = norm().ip("q", raw, "s", false).unwrap();
    assert_eq!(res.ip_version, Some(IpVersion::V6));
}

#[test]
fn ip_missing_ip_version_is_none() {
    let raw = json(r#"{ "startAddress": "1.2.3.4" }"#);
    let res = norm().ip("1.2.3.4", raw, "s", false).unwrap();
    assert!(res.ip_version.is_none());
}

#[test]
fn ip_non_object_json_returns_error() {
    let res = norm().ip("1.2.3.4", json(r#""not an object""#), "s", false);
    assert!(res.is_err());
}

// ── asn ───────────────────────────────────────────────────────────────────────

#[test]
fn asn_basic_fields() {
    let raw = json(
        r#"{
            "handle": "AS15169",
            "startAutnum": 15169,
            "endAutnum": 15169,
            "name": "GOOGLE",
            "type": "DIRECT ALLOCATION",
            "country": "US"
        }"#,
    );
    let res = norm().asn(15169, raw, "https://rdap.arin.net/", false).unwrap();

    assert_eq!(res.query, 15169);
    assert_eq!(res.handle.as_deref(), Some("AS15169"));
    assert_eq!(res.start_autnum, Some(15169));
    assert_eq!(res.end_autnum, Some(15169));
    assert_eq!(res.name.as_deref(), Some("GOOGLE"));
    assert_eq!(res.country.as_deref(), Some("US"));
}

#[test]
fn asn_missing_autnum_range_is_none() {
    let raw = json(r#"{ "handle": "AS64512" }"#);
    let res = norm().asn(64512, raw, "s", false).unwrap();
    assert!(res.start_autnum.is_none());
    assert!(res.end_autnum.is_none());
}

#[test]
fn asn_non_object_json_returns_error() {
    let res = norm().asn(1, json("null"), "s", false);
    assert!(res.is_err());
}

// ── nameserver ────────────────────────────────────────────────────────────────

#[test]
fn nameserver_basic_fields() {
    let raw = json(
        r#"{
            "handle": "NS-1",
            "ldhName": "NS1.EXAMPLE.COM",
            "unicodeName": "ns1.example.com",
            "ipAddresses": {
                "v4": ["192.0.2.1", "192.0.2.2"],
                "v6": ["2001:db8::1"]
            }
        }"#,
    );
    let res = norm().nameserver("ns1.example.com", raw, "s", false).unwrap();

    assert_eq!(res.query, "ns1.example.com");
    assert_eq!(res.handle.as_deref(), Some("NS-1"));
    assert_eq!(res.ldh_name.as_deref(), Some("NS1.EXAMPLE.COM"));
    assert_eq!(res.ip_addresses.v4, vec!["192.0.2.1", "192.0.2.2"]);
    assert_eq!(res.ip_addresses.v6, vec!["2001:db8::1"]);
}

#[test]
fn nameserver_empty_ip_addresses_when_field_absent() {
    let raw = json(r#"{ "ldhName": "NS1.EXAMPLE.COM" }"#);
    let res = norm().nameserver("ns1.example.com", raw, "s", false).unwrap();
    assert!(res.ip_addresses.v4.is_empty());
    assert!(res.ip_addresses.v6.is_empty());
}

#[test]
fn nameserver_non_object_json_returns_error() {
    let res = norm().nameserver("ns1.example.com", json("42"), "s", false);
    assert!(res.is_err());
}

// ── entity ────────────────────────────────────────────────────────────────────

#[test]
fn entity_basic_fields() {
    let raw = json(
        r#"{
            "handle": "ENTITY-1",
            "roles": ["registrant", "administrative"],
            "vcardArray": ["vcard", [
                ["version", {}, "text", "4.0"],
                ["fn",      {}, "text", "Jane Doe"]
            ]]
        }"#,
    );
    let res = norm().entity("ENTITY-1", raw, "s", false).unwrap();

    assert_eq!(res.query, "ENTITY-1");
    assert_eq!(res.handle.as_deref(), Some("ENTITY-1"));
    assert_eq!(res.roles.len(), 2);
    assert!(res.roles.iter().any(|r| matches!(r, RdapRole::Registrant)));
    assert!(res.roles.iter().any(|r| matches!(r, RdapRole::Administrative)));
    assert!(res.vcard_array.is_some());
}

#[test]
fn entity_unknown_role_preserved_as_other() {
    let raw = json(r#"{ "roles": ["novelRole"] }"#);
    let res = norm().entity("E-1", raw, "s", false).unwrap();
    assert!(matches!(&res.roles[0], RdapRole::Other(s) if s == "novelRole"));
}

#[test]
fn entity_empty_roles_when_absent() {
    let raw = json(r#"{ "handle": "E-1" }"#);
    let res = norm().entity("E-1", raw, "s", false).unwrap();
    assert!(res.roles.is_empty());
}

#[test]
fn entity_non_object_json_returns_error() {
    let res = norm().entity("E-1", json("true"), "s", false);
    assert!(res.is_err());
}

// ── vcard extraction ──────────────────────────────────────────────────────────

#[test]
fn extract_vcard_name_returns_fn_property() {
    let vcard = json(
        r#"["vcard", [
            ["version", {}, "text", "4.0"],
            ["fn",      {}, "text", "Acme Corp"]
        ]]"#,
    );
    assert_eq!(extract_vcard_name(&vcard), Some("Acme Corp".to_string()));
}

#[test]
fn extract_vcard_name_returns_none_when_no_fn() {
    let vcard = json(r#"["vcard", [["version", {}, "text", "4.0"]]]"#);
    assert_eq!(extract_vcard_name(&vcard), None);
}

#[test]
fn extract_vcard_name_returns_none_for_invalid_structure() {
    assert_eq!(extract_vcard_name(&json(r#""not a vcard""#)), None);
    assert_eq!(extract_vcard_name(&json("[]")), None);
    assert_eq!(extract_vcard_name(&json(r#"["vcard"]"#)), None);
}

// ── status parsing ────────────────────────────────────────────────────────────

#[test]
fn status_multi_valued_parsed_correctly() {
    let raw = json(r#"{ "status": ["active", "locked", "transfer prohibited", "unknownStatus"] }"#);
    let res = norm().domain("example.com", raw, "s", false).unwrap();
    assert!(res.status.iter().any(|s| matches!(s, RdapStatus::Active)));
    assert!(res.status.iter().any(|s| matches!(s, RdapStatus::Locked)));
    assert!(res.status.iter().any(|s| matches!(s, RdapStatus::TransferProhibited)));
    assert!(res.status.iter().any(|s| matches!(s, RdapStatus::Other(v) if v == "unknownStatus")));
}

// ── contract edges ────────────────────────────────────────────────────────────

#[test]
fn domain_with_time_stamps_given_time() {
    let raw = json(r#"{ "ldhName": "X.ORG" }"#);
    let res = norm()
        .domain_with_time("x.org", raw, "s", false, "2024-01-01T00:00:00Z".to_string())
        .unwrap();
    assert_eq!(res.meta.queried_at, "2024-01-01T00:00:00Z");
    assert_eq!(res.ldh_name.as_deref(), Some("X.ORG"));
}

#[test]
fn domain_nameserver_without_names_is_skipped() {
    let raw = json(r#"{ "nameservers": [ { "handle": "H" }, { "ldhName": "NS.A.B" } ] }"#);
    let res = norm().domain("a.b", raw, "s", false).unwrap();
    assert_eq!(res.nameservers, vec!["ns.a.b"]);
}

#[test]
fn domain_status_not_a_list_gives_empty() {
    let raw = json(r#"{ "status": "active" }"#);
    let res = norm().domain("a.b", raw, "s", false).unwrap();
    assert!(res.status.is_empty());
}

#[test]
fn registrar_name_taken_from_first_registrar_only() {
    let raw = json(
        r#"{
            "entities": [
                { "handle": "T-1", "roles": ["technical"] },
                { "handle": "R-1", "roles": ["registrar"] },
                { "handle": "R-2", "roles": ["registrar"] }
            ]
        }"#,
    );
    let res = norm().domain("a.b", raw, "s", false).unwrap();
    let reg = res.registrar.unwrap();
    assert_eq!(reg.handle.as_deref(), Some("R-1"));
    assert!(reg.name.is_none());
    assert!(reg.url.is_none());
}

#[test]
fn entity_nested_entities_are_kept() {
    let raw = json(
        r#"{ "handle": "P", "entities": [ { "handle": "C", "roles": ["abuse"] } ] }"#,
    );
    let res = norm().entity("P", raw, "s", false).unwrap();
    assert_eq!(res.entities.len(), 1);
    assert_eq!(res.entities[0].handle.as_deref(), Some("C"));
    assert!(matches!(res.entities[0].roles[0], RdapRole::Abuse));
}

#[test]
fn asn_negative_autnum_is_none_and_large_one_truncates() {
    let raw = json(r#"{ "startAutnum": -5, "endAutnum": 4294967297 }"#);
    let res = norm().asn(7, raw, "s", false).unwrap();
    assert!(res.start_autnum.is_none());
    assert_eq!(res.end_autnum, Some(1));
}

#[test]
fn domain_registrar_abuse_contact_from_nested_abuse_entity() {
    let raw = json(
        r#"{
            "entities": [{
                "handle": "REG-1",
                "roles": ["registrar"],
                "entities": [
                    { "roles": ["technical"], "vcardArray": ["vcard", [
                        ["email", {}, "text", "tech@reg.example"]
                    ]]},
                    { "roles": ["abuse"], "vcardArray": ["vcard", [
                        ["version", {}, "text", "4.0"],
                        ["email", {}, "text", "abuse@reg.example"],
                        ["tel", {"type": "voice"}, "uri", "tel:+1.5555550100"]
                    ]]}
                ]
            }]
        }"#,
    );
    let res = norm().domain("example.com", raw, "s", false).unwrap();
    let reg = res.registrar.unwrap();
    assert_eq!(reg.handle.as_deref(), Some("REG-1"));
    assert_eq!(reg.abuse_email.as_deref(), Some("abuse@reg.example"));
    assert_eq!(reg.abuse_phone.as_deref(), Some("tel:+1.5555550100"));
}

#[test]
fn registrar_without_abuse_entity_has_no_abuse_contact() {
    let raw = json(
        r#"{ "entities": [{ "handle": "REG-2", "roles": ["registrar"],
              "entities": [{ "roles": ["technical"] }] }] }"#,
    );
    let reg = norm().domain("example.com", raw, "s", false).unwrap().registrar.unwrap();
    assert!(reg.abuse_email.is_none());
    assert!(reg.abuse_phone.is_none());
}

#[test]
fn extract_registrar_takes_first_registrar_entity() {
    let raw = json(
        r#"{ "entities": [
              { "handle": "T", "roles": ["technical"] },
              { "handle": "R", "roles": ["registrar"],
                "links": [{ "href": "https://r.example/", "rel": "self" }] } ] }"#,
    );
    let res = norm().entity("x", raw, "s", false).unwrap();
    let reg = extract_registrar(&res.entities).unwrap();
    assert_eq!(reg.handle.as_deref(), Some("R"));
    assert_eq!(reg.url.as_deref(), Some("https://r.example/"));
    assert!(extract_registrar(&vec![]).is_none());
}
