use ggez_assets_manager::assets::{accepts_extension, DecodeError, ImageAsset, ShaderAsset};
use ggez_assets_manager::error::{load_error, not_found_error, AssetError};

#[test]
fn shader_from_utf8_bytes() {
    let s = ShaderAsset::from_bytes(b"@vertex fn main() {}").ok().unwrap();
    assert_eq!(s.0, "@vertex fn main() {}");
}

#[test]
fn shader_from_invalid_bytes() {
    let r = ShaderAsset::from_bytes(&[0xff, 0xfe, 0x00]);
    assert!(matches!(r, Err(DecodeError::Malformed(_))));
}

#[test]
fn shader_extension_is_wgsl() {
    assert_eq!(ShaderAsset::extensions(), vec!["wgsl"]);
}

#[test]
fn image_extensions_listed() {
    assert_eq!(ImageAsset::extensions(), vec!["png", "bmp", "webp", "jpeg", "jpg"]);
}

#[test]
fn extension_acceptance() {
    assert!(accepts_extension(&["png", "jpg"], "jpg"));
    assert!(!accepts_extension(&["png", "jpg"], "jpeg"));
    assert!(!accepts_extension(&["png"], "pn"));
    assert!(!accepts_extension(&[], "png"));
}

#[test]
fn shader_decode_checks_extension() {
    assert!(matches!(ShaderAsset::decode(b"code", "txt"), Err(DecodeError::UnsupportedExtension)));
    let s = ShaderAsset::decode(b"code", "wgsl").ok().unwrap();
    assert_eq!(s.0, "code");
    assert!(matches!(ShaderAsset::decode(&[0xc3], "wgsl"), Err(DecodeError::Malformed(_))));
}

#[test]
fn image_decode_checks_extension() {
    assert!(matches!(ImageAsset::decode(&[1, 2], "gif"), Err(DecodeError::UnsupportedExtension)));
    let img = ImageAsset::decode(&[1, 2], "webp").ok().unwrap();
    assert_eq!(img.0, vec![1, 2]);
}

#[test]
fn shader_from_string() {
    let s = ShaderAsset::from(String::from("code"));
    assert_eq!(s.0, "code");
}

#[test]
fn image_keeps_bytes() {
    let img = ImageAsset::from_bytes(&[1, 2, 3]);
    assert_eq!(img.0, vec![1, 2, 3]);
}

#[test]
fn not_found_load_error() {
    assert!(matches!(load_error("a.b", true, "whatever"),
        AssetError::ResourceNotFound(ref id) if id == "a.b"));
}

#[test]
fn other_load_error_message() {
    assert!(matches!(load_error("a.b", false, "bad data"),
        AssetError::ResourceLoadError(ref m) if m == "\"a.b\": bad data"));
}

#[test]
fn not_in_cache_error() {
    assert!(matches!(not_found_error(),
        AssetError::CustomError(ref m) if m == "resource not found in cache"));
}
