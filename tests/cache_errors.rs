use assets_manager::source::Empty;
use assets_manager::AssetCache;
use ggez_assets_manager::error::{convert_error, AssetError};

#[test]
fn missing_asset_is_resource_not_found() {
    let cache = AssetCache::with_source(Empty);
    let err = cache.load::<String>("fonts.missing").err().unwrap();
    assert!(matches!(convert_error(err),
        AssetError::ResourceNotFound(ref id) if id == "fonts.missing"));
}
