use miniredis::convert_to_bulk_string;
use miniredis::get_master_addr;
use miniredis::null_bulk_string;
use miniredis::Command;
use miniredis::DecodeError;

#[test]
fn test_parse_ping() {
    let r = Command::parse_redis_format(b"*1\r\n$4\r\nPING\r\n");
    assert!(matches!(r, Ok(Command::Ping)));
}

#[test]
fn test_parse_echo() {
    let r = Command::parse_redis_format(b"*2\r\n$4\r\necho\r\n$5\r\nhello\r\n");
    match r {
        Ok(Command::Echo(m)) => assert_eq!(m.as_slice(), b"hello"),
        _ => panic!("expected an echo command"),
    }
}

#[test]
fn test_parse_get() {
    let r = Command::parse_redis_format(b"*2\r\n$3\r\nGeT\r\n$3\r\nkey\r\n");
    match r {
        Ok(Command::Get(k)) => assert_eq!(k.as_slice(), b"key"),
        _ => panic!("expected a get command"),
    }
}

#[test]
fn test_parse_set_without_expiry() {
    let r = Command::parse_redis_format(b"*3\r\n$3\r\nSET\r\n$3\r\nhey\r\n$5\r\nworld");
    match r {
        Ok(Command::SetValue(p)) => {
            assert_eq!(p.key.as_slice(), b"hey");
            assert_eq!(p.value.as_slice(), b"world");
            assert_eq!(p.expiry, None);
        }
        _ => panic!("expected a set command"),
    }
}

#[test]
fn test_parse_set_with_px() {
    let r = Command::parse_redis_format(
        b"*4\r\n$3\r\nset\r\n$3\r\nhey\r\n$5\r\nworld\r\n$2\r\npx\r\n$3\r\n100",
    );
    match r {
        Ok(Command::SetValue(p)) => {
            assert_eq!(p.key.as_slice(), b"hey");
            assert_eq!(p.value.as_slice(), b"world");
            assert_eq!(p.expiry, Some(100));
        }
        _ => panic!("expected a set command"),
    }
}

#[test]
fn test_parse_set_px_unparseable() {
    let r = Command::parse_redis_format(
        b"*4\r\n$3\r\nset\r\n$3\r\nhey\r\n$5\r\nworld\r\n$2\r\npx\r\n$3\r\nabc",
    );
    match r {
        Ok(Command::SetValue(p)) => assert_eq!(p.expiry, None),
        _ => panic!("expected a set command"),
    }
}

#[test]
fn test_parse_set_px_signs_and_overflow() {
    let with_px = |px: &[u8]| -> Option<i64> {
        let mut req = b"*4\r\n$3\r\nset\r\n$1\r\nk\r\n$1\r\nv\r\n$2\r\npx\r\n$9\r\n".to_vec();
        req.extend_from_slice(px);
        match Command::parse_redis_format(&req) {
            Ok(Command::SetValue(p)) => p.expiry,
            _ => panic!("expected a set command"),
        }
    };
    assert_eq!(with_px(b"+42"), Some(42));
    assert_eq!(with_px(b"-42"), Some(-42));
    assert_eq!(with_px(b"007"), Some(7));
    assert_eq!(with_px(b"9223372036854775807"), Some(i64::MAX));
    assert_eq!(with_px(b"-9223372036854775808"), Some(i64::MIN));
    assert_eq!(with_px(b"9223372036854775808"), None);
    assert_eq!(with_px(b"-9223372036854775809"), None);
    assert_eq!(with_px(b"+"), None);
    assert_eq!(with_px(b""), None);
    assert_eq!(with_px(b" 42"), None);
}

#[test]
fn test_parse_info() {
    let r = Command::parse_redis_format(b"*1\r\n$4\r\nINFO\r\n");
    assert!(matches!(r, Ok(Command::Info(None))));
    let r = Command::parse_redis_format(b"*2\r\n$4\r\nINFO\r\n$11\r\nreplication\r\n");
    match r {
        Ok(Command::Info(Some(s))) => assert_eq!(s.as_slice(), b"replication"),
        _ => panic!("expected an info command with a section"),
    }
}

#[test]
fn test_parse_missing_command() {
    let r = Command::parse_redis_format(b"");
    assert!(matches!(r, Err(DecodeError::MissingCommand)));
    let r = Command::parse_redis_format(b"*1\r\n$4");
    assert!(matches!(r, Err(DecodeError::MissingCommand)));
}

#[test]
fn test_parse_missing_echo_value() {
    let r = Command::parse_redis_format(b"*2\r\n$4\r\nECHO\r\n");
    assert!(matches!(r, Err(DecodeError::MissingEchoValue)));
}

#[test]
fn test_parse_missing_key() {
    let r = Command::parse_redis_format(b"*2\r\n$3\r\nGET\r\n");
    assert!(matches!(r, Err(DecodeError::MissingKey)));
    let r = Command::parse_redis_format(b"*3\r\n$3\r\nSET\r\n");
    assert!(matches!(r, Err(DecodeError::MissingKey)));
}

#[test]
fn test_parse_missing_value() {
    let r = Command::parse_redis_format(b"*3\r\n$3\r\nSET\r\n$3\r\nkey\r\n");
    assert!(matches!(r, Err(DecodeError::MissingValue)));
}

#[test]
fn test_parse_unsupported() {
    let r = Command::parse_redis_format(b"*1\r\n$4\r\nBLAH\r\n");
    assert!(matches!(r, Err(DecodeError::UnsupportedCommand)));
}

#[test]
fn test_parse_tolerates_trailing_garbage() {
    let r = Command::parse_redis_format(b"*2\r\n$4\r\nECHO\r\n$2\r\nhi\r\ntrailing junk");
    match r {
        Ok(Command::Echo(m)) => assert_eq!(m.as_slice(), b"hi"),
        _ => panic!("expected an echo command"),
    }
}

#[test]
fn test_bulk_string_encoding() {
    assert_eq!(
        convert_to_bulk_string(b"world".to_vec()).as_slice(),
        b"$5\r\nworld\r\n"
    );
    assert_eq!(convert_to_bulk_string(Vec::new()).as_slice(), b"$0\r\n\r\n");
    assert_eq!(
        convert_to_bulk_string(b"0123456789".to_vec()).as_slice(),
        b"$10\r\n0123456789\r\n"
    );
    assert_eq!(
        convert_to_bulk_string(b"line\r\nbreak".to_vec()).as_slice(),
        b"$11\r\nline\r\nbreak\r\n"
    );
}

#[test]
fn test_null_bulk_string_encoding() {
    assert_eq!(null_bulk_string().as_slice(), b"$-1\r\n");
}

#[test]
fn test_get_master_addr_present() {
    let args: Vec<String> = vec![
        "prog".to_string(),
        "--replicaof".to_string(),
        "localhost".to_string(),
        "6380".to_string(),
    ];
    assert_eq!(get_master_addr(args), Some("localhost:6380".to_string()));
}

#[test]
fn test_get_master_addr_absent() {
    let args: Vec<String> = vec!["prog".to_string(), "--port".to_string(), "6379".to_string()];
    assert_eq!(get_master_addr(args), None);
}

#[test]
fn test_get_master_addr_incomplete() {
    let args: Vec<String> = vec!["prog".to_string(), "--replicaof".to_string(), "host".to_string()];
    assert_eq!(get_master_addr(args), None);
}

#[test]
fn test_get_master_addr_first_occurrence_wins() {
    let args: Vec<String> = vec![
        "--replicaof".to_string(),
        "a".to_string(),
        "b".to_string(),
        "--replicaof".to_string(),
        "c".to_string(),
        "d".to_string(),
    ];
    assert_eq!(get_master_addr(args), Some("a:b".to_string()));
}
