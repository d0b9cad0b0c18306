//! The raw assets: values decoded from bytes alone, before any context is
//! involved.

use vstd::prelude::*;
use vstd::slice::slice_to_vec;
use vstd::string::StrSliceExecFns;

verus! {

/// Why bytes could not be decoded into a raw asset.
pub enum DecodeError {
    /// The bytes are not in the expected format; the message says why.
    Malformed(String),
    /// The file's extension is not one that this kind of asset accepts.
    UnsupportedExtension,
}

/// The texts of a list of string slices.
pub open spec fn texts(list: Seq<&str>) -> Seq<Seq<char>> {
    list.map_values(|s: &str| s@)
}

/// Whether two strings hold the same text.
fn same_text(a: &str, b: &str) -> (r: bool)
    ensures
        r == (a@ == b@),
{
    let n = a.unicode_len();
    if n != b.unicode_len() {
        return false;
    }
    let mut i: usize = 0;
    while i < n
        invariant
            n == a@.len(),
            n == b@.len(),
            i <= n,
            forall|j: int| 0 <= j < i ==> a@[j] == b@[j],
        decreases n - i,
    {
        if a.get_char(i) != b.get_char(i) {
            return false;
        }
        i = i + 1;
    }
    assert(a@ =~= b@);
    true
}

/// Whether `ext` is one of the extensions in `accepted`.
pub fn accepts_extension(accepted: &[&str], ext: &str) -> (r: bool)
    ensures
        r == texts(accepted@).contains(ext@),
{
    let mut i: usize = 0;
    while i < accepted.len()
        invariant
            i <= accepted@.len(),
            forall|j: int| 0 <= j < i ==> accepted@[j]@ != ext@,
        decreases accepted@.len() - i,
    {
        if same_text(accepted[i], ext) {
            assert(texts(accepted@)[i as int] == ext@);
            return true;
        }
        i = i + 1;
    }
    assert forall|j: int| 0 <= j < texts(accepted@).len() implies texts(accepted@)[j] != ext@ by {
        assert(texts(accepted@)[j] == accepted@[j]@);
    }
    false
}

/// A raw asset that has no file and no value: it stands for assets that are
/// built from other assets only.
pub struct NoAsset(core::convert::Infallible);

/// The text of `bytes` read as UTF-8, when they are valid UTF-8.
pub uninterp spec fn utf8_text(bytes: Seq<u8>) -> Option<Seq<char>>;

/// Relies on `<String as assets_manager::FileAsset>::from_bytes`, which reads
/// the bytes as UTF-8 text and fails when they are not valid UTF-8.
#[verifier::external_body]
fn decode_text(bytes: &[u8]) -> (r: Result<String, String>)
    ensures
        match r {
            Ok(text) => utf8_text(bytes@) == Some(text@),
            Err(_) => utf8_text(bytes@) is None,
        },
{
    <String as assets_manager::FileAsset>::from_bytes(std::borrow::Cow::Borrowed(bytes)).map_err(
        |e| e.to_string(),
    )
}

/// The source code of a shader, in WGSL.
pub struct ShaderAsset(pub String);

impl From<String> for ShaderAsset {
    fn from(code: String) -> (r: ShaderAsset) {
        ShaderAsset(code)
    }
}

impl vstd::std_specs::convert::FromSpecImpl<String> for ShaderAsset {
    open spec fn obeys_from_spec() -> bool {
        true
    }

    open spec fn from_spec(code: String) -> ShaderAsset {
        ShaderAsset(code)
    }
}

impl ShaderAsset {
    /// The file extensions of shaders.
    pub fn extensions() -> (r: Vec<&'static str>)
        ensures
            texts(r@) == shader_extensions(),
    {
        let r = vec!["wgsl"];
        assert(texts(r@) =~= shader_extensions());
        r
    }

    /// Decodes a shader from a file with extension `ext`: the extension must
    /// be one of shaders, and the code is the bytes read as UTF-8 text.
    pub fn decode(bytes: &[u8], ext: &str) -> (r: Result<ShaderAsset, DecodeError>)
        ensures
            !shader_extensions().contains(ext@) ==> (r matches Err(
                DecodeError::UnsupportedExtension,
            )),
            shader_extensions().contains(ext@) ==> match utf8_text(bytes@) {
                Some(code) => r is Ok && r->Ok_0.0@ == code,
                None => r matches Err(DecodeError::Malformed(_)),
            },
    {
        let accepted = ShaderAsset::extensions();
        if !accepts_extension(accepted.as_slice(), ext) {
            return Err(DecodeError::UnsupportedExtension);
        }
        ShaderAsset::from_bytes(bytes)
    }

    /// Decodes a shader from the bytes of its file: its code is the bytes
    /// read as UTF-8 text.
    pub fn from_bytes(bytes: &[u8]) -> (r: Result<ShaderAsset, DecodeError>)
        ensures
            match utf8_text(bytes@) {
                Some(code) => r is Ok && r->Ok_0.0@ == code,
                None => r matches Err(DecodeError::Malformed(_)),
            },
    {
        match decode_text(bytes) {
            Ok(code) => Ok(ShaderAsset::from(code)),
            Err(msg) => Err(DecodeError::Malformed(msg)),
        }
    }
}

/// The encoded bytes of an image, kept as they are for the context to
/// decode.
pub struct ImageAsset(pub Vec<u8>);

impl ImageAsset {
    /// Keeps the bytes of an image file.
    pub fn from_bytes(bytes: &[u8]) -> (r: ImageAsset)
        ensures
            r.0@ == bytes@,
    {
        ImageAsset(slice_to_vec(bytes))
    }

    /// The file extensions of images.
    pub fn extensions() -> (r: Vec<&'static str>)
        ensures
            texts(r@) == image_extensions(),
    {
        let r = vec!["png", "bmp", "webp", "jpeg", "jpg"];
        assert(texts(r@) =~= image_extensions());
        r
    }

    /// Keeps the bytes of an image file with extension `ext`, which must be
    /// one of images.
    pub fn decode(bytes: &[u8], ext: &str) -> (r: Result<ImageAsset, DecodeError>)
        ensures
            !image_extensions().contains(ext@) ==> (r matches Err(
                DecodeError::UnsupportedExtension,
            )),
            image_extensions().contains(ext@) ==> r is Ok && r->Ok_0.0@ == bytes@,
    {
        let accepted = ImageAsset::extensions();
        if !accepts_extension(accepted.as_slice(), ext) {
            return Err(DecodeError::UnsupportedExtension);
        }
        Ok(ImageAsset::from_bytes(bytes))
    }
}

/// The extensions of shader files.
pub open spec fn shader_extensions() -> Seq<Seq<char>> {
    seq!["wgsl"@]
}

/// The extensions of image files.
pub open spec fn image_extensions() -> Seq<Seq<char>> {
    seq!["png"@, "bmp"@, "webp"@, "jpeg"@, "jpg"@]
}

} // verus!
