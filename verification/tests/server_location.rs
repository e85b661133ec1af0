use muzzman_lib::error::RawLibraryError;
use muzzman_lib::location::ServerLocation;
use muzzman_lib::raw_module::{check_library, has_extension, required_symbols};

#[test]
fn server_location_bytes_round_trip() {
    let l = ServerLocation {
        ip: "10.0.0.1".to_string(),
        port: 8080,
        indentification: "me".to_string(),
        server_cert: Some("cert".to_string()),
    };
    let bytes = l.to_bytes();
    assert_eq!(l.size(), bytes.len());
    let mut expected = vec![8, 0, 0, 0, 0, 0, 0, 0];
    expected.extend_from_slice(b"10.0.0.1");
    expected.extend_from_slice(&[0x90, 0x1f]);
    expected.extend_from_slice(&[2, 0, 0, 0, 0, 0, 0, 0]);
    expected.extend_from_slice(b"me");
    expected.push(1);
    expected.extend_from_slice(&[4, 0, 0, 0, 0, 0, 0, 0]);
    expected.extend_from_slice(b"cert");
    assert_eq!(bytes, expected);
    let mut buffer = bytes.clone();
    buffer.push(99);
    let back = ServerLocation::from_bytes(&mut buffer).unwrap();
    assert_eq!(back.ip, "10.0.0.1");
    assert_eq!(back.port, 8080);
    assert_eq!(back.indentification, "me");
    assert_eq!(back.server_cert, Some("cert".to_string()));
    assert_eq!(buffer, vec![99]);
}

#[test]
fn server_location_without_cert() {
    let l = ServerLocation {
        ip: String::new(),
        port: 1,
        indentification: "x".to_string(),
        server_cert: None,
    };
    let mut buffer = l.to_bytes();
    assert_eq!(buffer.len(), 8 + 2 + 9 + 1);
    assert_eq!(*buffer.last().unwrap(), 0);
    let back = ServerLocation::from_bytes(&mut buffer).unwrap();
    assert_eq!(back.server_cert, None);
    assert!(buffer.is_empty());
}

#[test]
fn server_location_short_input() {
    let mut buffer = vec![5, 0, 0, 0, 0, 0, 0, 0, b'a'];
    assert!(ServerLocation::from_bytes(&mut buffer).is_none());
}

#[test]
fn library_symbols_checked_in_order() {
    let names = required_symbols();
    assert_eq!(names.len(), 13);
    assert_eq!(names[0], "name");
    assert_eq!(names[4], "supported_versions");
    assert_eq!(names[12], "supports_extensions");
    assert_eq!(check_library(false, &[]), Err(RawLibraryError::NotFound));
    let all = [true; 13];
    assert_eq!(check_library(true, &all), Ok(()));
    let mut some = [true; 13];
    some[4] = false;
    some[9] = false;
    assert_eq!(
        check_library(true, &some),
        Err(RawLibraryError::DontHaveSymbolSupportedVersions)
    );
}

#[test]
fn module_files_by_extension() {
    assert!(has_extension("/opt/modules/libhttp.so", "so"));
    assert!(has_extension("a.b.so", "so"));
    assert!(!has_extension("libhttp.so.1", "so"));
    assert!(!has_extension("readme", "so"));
    assert!(has_extension("so", "so"));
    assert!(has_extension("name.", ""));
    assert!(!has_extension("name.dll", "so"));
}
