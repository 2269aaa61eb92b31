use user_auth::claims::Claims;
use user_auth::errors::ServiceError;
use user_auth::models::{InputUser, LoginData, NewUser, User};
use user_auth::payload::{parse_exp, parse_role, parse_uid, read_payload};
use user_auth::policy::{admin_login, delete_user, get_user_by_id, get_users};
use user_auth::role::{has_at_least, Role};
use user_auth::token::{
    authenticate, create_jwt, create_jwt_role, issue_token, validate_token, verify_payload,
    verify_token, TOKEN_LIFETIME_SECS,
};

const SECRET: &[u8] = b"a test secret";
const NOW: i64 = 1_600_000_000;

fn claims(uid: i32, role: Role) -> Claims {
    Claims { exp: (NOW + TOKEN_LIFETIME_SECS) as usize, uid, role }
}

fn user(id: i32) -> User {
    User {
        id,
        first_name: "Ada".to_string(),
        last_name: "Lovelace".to_string(),
        email: "ada@example.com".to_string(),
        created_at: 0,
    }
}

#[test]
fn role_order_is_total_and_increasing() {
    let roles = [Role::NoRole, Role::ReadAll, Role::WriteAll, Role::Admin];
    for (i, a) in roles.iter().enumerate() {
        for (j, b) in roles.iter().enumerate() {
            assert_eq!(has_at_least(*a, *b), i >= j, "{:?} vs {:?}", a, b);
        }
    }
    assert_eq!(Role::Admin.rank(), 3);
    assert_eq!(Role::NoRole.rank(), 0);
}

#[test]
fn claims_json_exact_text() {
    let c = Claims { exp: 1700000000, uid: -5, role: Role::WriteAll };
    assert_eq!(c.to_json(), "{\"exp\":1700000000,\"uid\":-5,\"role\":\"WriteAll\"}");
    let c = Claims { exp: 0, uid: 0, role: Role::NoRole };
    assert_eq!(c.to_json(), "{\"exp\":0,\"uid\":0,\"role\":\"None\"}");
}

#[test]
fn claims_json_round_trip_edges() {
    for c in [
        Claims { exp: 0, uid: i32::MIN, role: Role::Admin },
        Claims { exp: usize::MAX, uid: i32::MAX, role: Role::ReadAll },
        Claims { exp: 10, uid: -1, role: Role::NoRole },
    ] {
        assert_eq!(read_payload(&c.to_json()), Some(c));
    }
}

#[test]
fn payload_in_any_json_layout_is_read() {
    let c = Claims { exp: 12, uid: -3, role: Role::WriteAll };
    for t in [
        "{\"uid\":-3,\"exp\":12,\"role\":\"WriteAll\"}",
        "{ \"exp\" : 12 , \"uid\" : -3 , \"role\" : \"WriteAll\" }",
        "\n{\"role\":\"WriteAll\",\n\t\"uid\":-3,\"exp\":12}\n",
        "{\"exp\":12,\"uid\":-3,\"role\":\"WriteAll\",\"extra\":[1,2]}",
    ] {
        assert_eq!(read_payload(t), Some(c), "{}", t);
    }
}

#[test]
fn payload_without_valid_claims_is_refused() {
    for t in [
        "",
        "{}",
        "[12,-3,\"WriteAll\"]",
        "{\"exp\":12,\"uid\":-3}",
        "{\"exp\":12,\"role\":\"WriteAll\"}",
        "{\"exp\":-12,\"uid\":-3,\"role\":\"WriteAll\"}",
        "{\"exp\":12.5,\"uid\":-3,\"role\":\"WriteAll\"}",
        "{\"exp\":\"12\",\"uid\":-3,\"role\":\"WriteAll\"}",
        "{\"exp\":12,\"uid\":2147483648,\"role\":\"WriteAll\"}",
        "{\"exp\":12,\"uid\":-3,\"role\":\"writeall\"}",
        "{\"exp\":12,\"uid\":-3,\"role\":3}",
        "{\"exp\":99999999999999999999999,\"uid\":-3,\"role\":\"WriteAll\"}",
        "{\"exp\":12,\"uid\":-3,\"role\":\"WriteAll\"",
    ] {
        assert_eq!(read_payload(t), None, "{}", t);
    }
}

#[test]
fn value_parsers() {
    assert_eq!(parse_exp(&"0".to_string()), Some(0));
    assert_eq!(parse_exp(&"6048000".to_string()), Some(6048000));
    assert_eq!(parse_exp(&"07".to_string()), None);
    assert_eq!(parse_exp(&"".to_string()), None);
    assert_eq!(parse_uid(&"-2147483648".to_string()), Some(i32::MIN));
    assert_eq!(parse_uid(&"-0".to_string()), None);
    assert_eq!(parse_uid(&"-".to_string()), None);
    assert_eq!(parse_role(&"\"None\"".to_string()), Some(Role::NoRole));
    assert_eq!(parse_role(&"None".to_string()), None);
}

fn sign_json(value: &serde_json::Value) -> String {
    jsonwebtoken::encode(
        &jsonwebtoken::Header::new(jsonwebtoken::Algorithm::HS512),
        value,
        &jsonwebtoken::EncodingKey::from_secret(SECRET),
    )
    .unwrap()
}

#[test]
fn token_with_other_payload_layout_is_verified() {
    let mut m = serde_json::Map::new();
    m.insert("role".to_string(), serde_json::Value::from("Admin"));
    m.insert("uid".to_string(), serde_json::Value::from(4));
    m.insert("exp".to_string(), serde_json::Value::from(1000u64));
    let token = sign_json(&serde_json::Value::Object(m));
    let c = Claims { exp: 1000, uid: 4, role: Role::Admin };
    assert_eq!(verify_token(&token, SECRET, 999).unwrap(), c);
    assert!(matches!(verify_token(&token, SECRET, 1000), Err(ServiceError::TokenExpiredError)));
    assert!(matches!(verify_token(&token, SECRET, NOW), Err(ServiceError::TokenExpiredError)));
    assert!(matches!(validate_token(&token, SECRET), Err(ServiceError::TokenExpiredError)));
}

#[test]
fn round_trip_issue_then_verify() {
    for (uid, role) in [(7, Role::ReadAll), (-3, Role::Admin), (0, Role::NoRole), (42, Role::WriteAll)] {
        let token = issue_token(uid, role, NOW, SECRET).unwrap();
        let got = verify_token(&token, SECRET, NOW).unwrap();
        assert_eq!(got, claims(uid, role));
        assert_eq!(got.exp as i64, NOW + 6_048_000);
        let later = verify_token(&token, SECRET, NOW + TOKEN_LIFETIME_SECS - 1).unwrap();
        assert_eq!(later, got);
    }
}

#[test]
fn token_is_a_standard_hs512_jwt() {
    let token = issue_token(7, Role::ReadAll, NOW, SECRET).unwrap();
    assert_eq!(token.split('.').count(), 3);
    let header = jsonwebtoken::decode_header(&token).unwrap();
    assert_eq!(header.alg, jsonwebtoken::Algorithm::HS512);
    let mut validation = jsonwebtoken::Validation::new(jsonwebtoken::Algorithm::HS512);
    validation.validate_exp = false;
    let data = jsonwebtoken::decode::<serde_json::Value>(
        &token,
        &jsonwebtoken::DecodingKey::from_secret(SECRET),
        &validation,
    )
    .unwrap();
    assert_eq!(data.claims["exp"].as_u64(), Some((NOW + TOKEN_LIFETIME_SECS) as u64));
    assert_eq!(data.claims["uid"].as_i64(), Some(7));
    assert_eq!(data.claims["role"].as_str(), Some("ReadAll"));
}

#[test]
fn expired_token_is_expired_not_invalid() {
    let token = issue_token(7, Role::ReadAll, NOW, SECRET).unwrap();
    let exp = NOW + TOKEN_LIFETIME_SECS;
    assert!(matches!(verify_token(&token, SECRET, exp), Err(ServiceError::TokenExpiredError)));
    assert!(matches!(verify_token(&token, SECRET, exp + 1), Err(ServiceError::TokenExpiredError)));
    // issued with a clock far in the past
    let old = issue_token(7, Role::ReadAll, 1_000, SECRET).unwrap();
    assert!(matches!(validate_token(&old, SECRET), Err(ServiceError::TokenExpiredError)));
}

#[test]
fn tampered_signature_is_invalid() {
    let token = issue_token(7, Role::ReadAll, NOW, SECRET).unwrap();
    let sig_start = token.rfind('.').unwrap() + 1;
    let bytes = token.as_bytes();
    for i in sig_start..bytes.len() {
        let mut changed = bytes.to_vec();
        changed[i] = if changed[i] == b'A' { b'B' } else { b'A' };
        let t = String::from_utf8(changed).unwrap();
        assert!(matches!(verify_token(&t, SECRET, NOW), Err(ServiceError::JWTokenError)), "{}", i);
    }
}

#[test]
fn wrong_secret_or_garbage_is_invalid() {
    let token = issue_token(7, Role::ReadAll, NOW, SECRET).unwrap();
    assert!(matches!(verify_token(&token, b"another", NOW), Err(ServiceError::JWTokenError)));
    assert!(matches!(verify_token("not a token", SECRET, NOW), Err(ServiceError::JWTokenError)));
    assert!(matches!(verify_token("", SECRET, NOW), Err(ServiceError::JWTokenError)));
}

#[test]
fn verify_payload_cases() {
    assert!(matches!(verify_payload(None, NOW), Err(ServiceError::JWTokenError)));
    assert!(matches!(verify_payload(Some("{\"a\":1}".to_string()), NOW), Err(ServiceError::JWTokenError)));
    let spaced = "{ \"role\": \"Admin\", \"uid\": 3, \"exp\": 100 }".to_string();
    assert!(matches!(verify_payload(Some(spaced.clone()), 100), Err(ServiceError::TokenExpiredError)));
    assert_eq!(verify_payload(Some(spaced), 99).unwrap(), Claims { exp: 100, uid: 3, role: Role::Admin });
    let c = Claims { exp: 100, uid: 3, role: Role::Admin };
    assert_eq!(verify_payload(Some(c.to_json()), 99).unwrap(), c);
    assert!(matches!(verify_payload(Some(c.to_json()), 100), Err(ServiceError::TokenExpiredError)));
    assert!(matches!(verify_payload(Some(c.to_json()), -5), Ok(_)));
}

#[test]
fn issue_fails_when_expiry_is_not_representable() {
    // a late clock still fits: the expiry is a usize
    let late = issue_token(1, Role::ReadAll, i64::MAX, SECRET).unwrap();
    let c = verify_token(&late, SECRET, i64::MAX).unwrap();
    assert_eq!(c.exp as u64, i64::MAX as u64 + TOKEN_LIFETIME_SECS as u64);
    assert!(matches!(issue_token(1, Role::ReadAll, -TOKEN_LIFETIME_SECS - 1, SECRET), Err(ServiceError::JWTCreationError)));
    let t = issue_token(1, Role::ReadAll, -TOKEN_LIFETIME_SECS, SECRET).unwrap();
    assert!(matches!(verify_token(&t, SECRET, 0), Err(ServiceError::TokenExpiredError)));
    assert_eq!(verify_token(&t, SECRET, -1).unwrap().exp, 0);
}

#[test]
fn authenticate_gate() {
    assert!(matches!(authenticate(None, SECRET, NOW), Err(ServiceError::Unauthenticated)));
    let token = issue_token(9, Role::WriteAll, NOW, SECRET).unwrap();
    assert_eq!(authenticate(Some(&token), SECRET, NOW).unwrap(), claims(9, Role::WriteAll));
    assert!(matches!(authenticate(Some("x.y.z"), SECRET, NOW), Err(ServiceError::JWTokenError)));
}

#[test]
fn create_jwt_uses_read_all_and_current_time() {
    let u = user(12);
    let token = create_jwt(&u, SECRET).unwrap();
    let c = validate_token(&token, SECRET).unwrap();
    assert_eq!(c.uid, 12);
    assert_eq!(c.role, Role::ReadAll);
    let token = create_jwt_role(&u, Role::Admin, SECRET).unwrap();
    assert_eq!(validate_token(&token, SECRET).unwrap().role, Role::Admin);
}

#[test]
fn ownership_bypass() {
    let none = claims(5, Role::NoRole);
    assert!(get_user_by_id(&none, 5).is_ok());
    assert!(delete_user(&none, 5).is_ok());
    assert!(matches!(get_user_by_id(&none, 6), Err(ServiceError::NoPermissionError)));
    assert!(matches!(delete_user(&none, 6), Err(ServiceError::NoPermissionError)));
    assert!(matches!(get_users(&none), Err(ServiceError::NoPermissionError)));
    let writer = claims(5, Role::WriteAll);
    for id in [-1, 0, 5, 6, i32::MAX] {
        assert!(delete_user(&writer, id).is_ok());
    }
    let reader = claims(5, Role::ReadAll);
    assert!(matches!(delete_user(&reader, 6), Err(ServiceError::NoPermissionError)));
    assert!(get_users(&reader).is_ok());
}

#[test]
fn end_to_end_read_scenario() {
    let token = issue_token(7, Role::ReadAll, NOW, SECRET).unwrap();
    let c = authenticate(Some(&token), SECRET, NOW).unwrap();
    assert!(get_user_by_id(&c, 7).is_ok());
    // ReadAll reaches every record, so reading another id is allowed too.
    assert!(get_user_by_id(&c, 9).is_ok());
    let low = issue_token(7, Role::NoRole, NOW, SECRET).unwrap();
    let c = authenticate(Some(&low), SECRET, NOW).unwrap();
    assert!(matches!(get_user_by_id(&c, 9), Err(ServiceError::NoPermissionError)));
    for role in [Role::NoRole, Role::ReadAll, Role::WriteAll, Role::Admin] {
        let t = issue_token(9, role, NOW, SECRET).unwrap();
        let c = authenticate(Some(&t), SECRET, NOW).unwrap();
        assert!(get_user_by_id(&c, 9).is_ok());
    }
}

#[test]
fn admin_login_boundary() {
    let ok = admin_login(&LoginData::new("hugo".to_string(), "hugo".to_string()), SECRET, NOW).unwrap();
    let c = verify_token(&ok, SECRET, NOW).unwrap();
    assert_eq!(c, Claims { exp: (NOW + TOKEN_LIFETIME_SECS) as usize, uid: 0, role: Role::Admin });
    for (n, p) in [("", ""), ("hugo", ""), ("", "hugo"), ("Hugo", "hugo"), ("hugo", "HUGO"), ("hugo ", "hugo"), ("admin", "admin")] {
        let r = admin_login(&LoginData::new(n.to_string(), p.to_string()), SECRET, NOW);
        assert!(matches!(r, Err(ServiceError::Unauthenticated)), "{:?}/{:?}", n, p);
    }
}

#[test]
fn error_kinds_are_distinguished() {
    assert!(ServiceError::JWTokenError.is_authentication_failure());
    assert!(ServiceError::TokenExpiredError.is_authentication_failure());
    assert!(ServiceError::Unauthenticated.is_authentication_failure());
    assert!(!ServiceError::NoPermissionError.is_authentication_failure());
    assert!(!ServiceError::JWTCreationError.is_authentication_failure());
}

#[test]
fn new_user_from_input() {
    let input = InputUser { first_name: "A".to_string(), last_name: "B".to_string(), email: "c@d".to_string() };
    let row = NewUser::from_input(&input, 77);
    assert_eq!(row.first_name, "A");
    assert_eq!(row.last_name, "B");
    assert_eq!(row.email, "c@d");
    assert_eq!(row.created_at, 77);
}
