//! The package of an extension is compressed and written in base64, so
//! that it fits into an event beside the extension's other data.

use base64::Engine;
use vstd::prelude::*;
use crate::events::types::ExtensionSource;
use crate::text::join;

verus! {

/// The compression level of packages.
pub const COMPRESSION_LEVEL: i32 = 19;

/// What zstd makes of a byte string at a level: the frame that it
/// compresses to, or none where compression fails.
pub uninterp spec fn zstd_compressed(data: Seq<u8>, level: i32) -> Option<Seq<u8>>;

/// What a zstd frame decompresses to; none when the bytes are no frame.
pub uninterp spec fn zstd_decompressed(data: Seq<u8>) -> Option<Seq<u8>>;

/// The standard base64 text of a byte string, with padding.
pub uninterp spec fn base64_encoded(data: Seq<u8>) -> Seq<char>;

/// The bytes that a standard base64 text stands for; none when the text
/// is not valid.
pub uninterp spec fn base64_decoded(text: Seq<char>) -> Option<Seq<u8>>;

/// Compresses bytes with zstd.
///
/// Trusted: calls `zstd::encode_all` on a cursor over the bytes. The
/// contract names the outcome, which depends on the bytes and the level
/// alone, and states that a frame that comes back decompresses to the
/// bytes again.
#[verifier::external_body]
pub(crate) fn zstd_compress(data: &[u8], level: i32) -> (r: Option<Vec<u8>>)
    ensures
        r.deep_view() == zstd_compressed(data@, level),
        r matches Some(frame) ==> zstd_decompressed(frame@) == Some(data@),
{
    zstd::encode_all(std::io::Cursor::new(data), level).ok()
}

/// Decompresses a zstd frame.
///
/// Trusted: calls `zstd::decode_all` on a cursor over the bytes. The
/// contract names the outcome, which depends on the bytes alone.
#[verifier::external_body]
pub(crate) fn zstd_decompress(data: &[u8]) -> (r: Option<Vec<u8>>)
    ensures
        r.deep_view() == zstd_decompressed(data@),
{
    zstd::decode_all(std::io::Cursor::new(data)).ok()
}

/// Writes bytes in standard base64.
///
/// Trusted: calls `Engine::encode` of `base64` on the standard engine.
/// The contract names the text, which depends on the bytes alone, and
/// states that the text decodes to the bytes again.
#[verifier::external_body]
pub(crate) fn base64_encode(data: &[u8]) -> (r: String)
    ensures
        r@ == base64_encoded(data@),
        base64_decoded(r@) == Some(data@),
{
    base64::engine::general_purpose::STANDARD.encode(data)
}

/// Reads bytes from standard base64.
///
/// Trusted: calls `Engine::decode` of `base64` on the standard engine.
/// The contract names the outcome, which depends on the text alone.
#[verifier::external_body]
pub(crate) fn base64_decode(text: &str) -> (r: Option<Vec<u8>>)
    ensures
        r.deep_view() == base64_decoded(text@),
{
    base64::engine::general_purpose::STANDARD.decode(text).ok()
}

/// What can go wrong with a package.
#[derive(Debug, Clone, Copy, PartialEq, Eq, Structural)]
pub enum ExtensionError {
    /// The package could not be compressed.
    CompressionFailed,
    /// The bytes are no compressed package.
    DecompressionFailed,
    /// The text is not valid base64.
    InvalidBase64,
}

/// The identity of an extension, as its manifest gives it.
#[derive(Debug)]
pub struct ExtensionManifest {
    pub id: String,
    pub name: String,
    pub version: String,
}

impl Clone for ExtensionManifest {
    fn clone(&self) -> (r: Self)
        ensures
            r.id@ == self.id@,
            r.name@ == self.name@,
            r.version@ == self.version@,
    {
        ExtensionManifest {
            id: self.id.clone(),
            name: self.name.clone(),
            version: self.version.clone(),
        }
    }
}

/// The identity that a manifest gives: the identifier that it names for
/// the browser, else one made of the name in lower case with a hyphen for
/// every space and `@local` behind; the name, else `Unknown Extension`;
/// the version, else `0.0.0`.
pub open spec fn manifest_of(
    gecko_id: Option<Seq<char>>,
    name: Option<Seq<char>>,
    version: Option<Seq<char>>,
) -> (Seq<char>, Seq<char>, Seq<char>) {
    (
        match gecko_id {
            Some(id) => id,
            None => crate::text::with_replaced(
                crate::text::lowercased(
                    match name {
                        Some(n) => n,
                        None => "unknown"@,
                    },
                ),
                ' ',
                '-',
            ) + "@local"@,
        },
        match name {
            Some(n) => n,
            None => "Unknown Extension"@,
        },
        match version {
            Some(v) => v,
            None => "0.0.0"@,
        },
    )
}

/// Reads the identity of an extension from the fields of its manifest.
pub fn manifest_from_fields(gecko_id: Option<&str>, name: Option<&str>, version: Option<&str>) -> (m:
    ExtensionManifest)
    ensures
        (m.id@, m.name@, m.version@) == manifest_of(
            gecko_id.deep_view(),
            name.deep_view(),
            version.deep_view(),
        ),
{
    let id = match gecko_id {
        Some(id) => id.to_owned(),
        None => {
            let base = match name {
                Some(n) => n,
                None => "unknown",
            };
            let lower = crate::text::to_lowercase(base);
            let slug = crate::text::replace_char(lower.as_str(), ' ', '-');
            join(slug.as_str(), "@local")
        },
    };
    let shown = match name {
        Some(n) => n.to_owned(),
        None => "Unknown Extension".to_owned(),
    };
    let version = match version {
        Some(v) => v.to_owned(),
        None => "0.0.0".to_owned(),
    };
    ExtensionManifest { id, name: shown, version }
}

/// An extension that was packaged for installation.
#[derive(Debug)]
pub struct InstallResult {
    pub id: String,
    pub name: String,
    pub version: String,
    pub source: ExtensionSource,
    /// The compressed package in base64.
    pub xpi_data: String,
}

/// A package file to write into a profile.
#[derive(Debug)]
pub struct PackageFile {
    /// The extension that the package belongs to.
    pub id: String,
    /// The path below the profile directory.
    pub path: String,
    pub bytes: Vec<u8>,
}

/// A package file as plain data.
pub struct PackageFileView {
    pub id: Seq<char>,
    pub path: Seq<char>,
    pub bytes: Seq<u8>,
}

impl View for PackageFile {
    type V = PackageFileView;

    open spec fn view(&self) -> PackageFileView {
        PackageFileView { id: self.id@, path: self.path@, bytes: self.bytes@ }
    }
}

impl DeepView for PackageFile {
    type V = PackageFileView;

    open spec fn deep_view(&self) -> PackageFileView {
        self.view()
    }
}

/// The package file of an extension with the given unpacked bytes.
pub open spec fn package_file(extension_id: Seq<char>, bytes: Seq<u8>) -> PackageFileView {
    PackageFileView { id: extension_id, path: package_path(extension_id), bytes }
}

/// The package bytes that the text of an event unpacks to, or the reason
/// why it does not unpack.
pub open spec fn unpacked(xpi_data: Seq<char>) -> Result<Seq<u8>, ExtensionError> {
    match base64_decoded(xpi_data) {
        None => Err(ExtensionError::InvalidBase64),
        Some(frame) => match zstd_decompressed(frame) {
            None => Err(ExtensionError::DecompressionFailed),
            Some(bytes) => Ok(bytes),
        },
    }
}

/// Where the package of an extension goes, below the profile directory.
pub open spec fn package_path(extension_id: Seq<char>) -> Seq<char> {
    "extensions/"@ + extension_id + ".xpi"@
}

/// Compresses a package. Fails exactly when zstd does; a frame that
/// comes back decompresses to the package again.
pub fn compress_xpi(data: &[u8]) -> (r: Result<Vec<u8>, ExtensionError>)
    ensures
        match zstd_compressed(data@, COMPRESSION_LEVEL) {
            Some(frame) => r matches Ok(f) && f@ == frame && zstd_decompressed(frame) == Some(
                data@,
            ),
            None => r matches Err(e) && e == ExtensionError::CompressionFailed,
        },
{
    match zstd_compress(data, COMPRESSION_LEVEL) {
        Some(frame) => Ok(frame),
        None => Err(ExtensionError::CompressionFailed),
    }
}

/// Decompresses a package. Fails exactly when the bytes are no frame.
pub fn decompress_xpi(data: &[u8]) -> (r: Result<Vec<u8>, ExtensionError>)
    ensures
        match zstd_decompressed(data@) {
            Some(bytes) => r matches Ok(b) && b@ == bytes,
            None => r matches Err(e) && e == ExtensionError::DecompressionFailed,
        },
{
    match zstd_decompress(data) {
        Some(bytes) => Ok(bytes),
        None => Err(ExtensionError::DecompressionFailed),
    }
}

/// Writes bytes in base64.
pub fn encode_base64(data: &[u8]) -> (text: String)
    ensures
        text@ == base64_encoded(data@),
        base64_decoded(text@) == Some(data@),
{
    base64_encode(data)
}

/// Reads bytes from base64. Fails exactly when the text is not valid.
pub fn decode_base64(data: &str) -> (r: Result<Vec<u8>, ExtensionError>)
    ensures
        match base64_decoded(data@) {
            Some(bytes) => r matches Ok(b) && b@ == bytes,
            None => r matches Err(e) && e == ExtensionError::InvalidBase64,
        },
{
    match base64_decode(data) {
        Some(bytes) => Ok(bytes),
        None => Err(ExtensionError::InvalidBase64),
    }
}

/// The text that an event carries for package bytes: the compressed
/// package in base64, or the reason why there is none.
pub open spec fn packed(xpi_bytes: Seq<u8>) -> Result<Seq<char>, ExtensionError> {
    match zstd_compressed(xpi_bytes, COMPRESSION_LEVEL) {
        Some(frame) => Ok(base64_encoded(frame)),
        None => Err(ExtensionError::CompressionFailed),
    }
}

/// Packs package bytes into the text that an event carries. Fails
/// exactly when the compression does; a text that comes back unpacks to
/// the bytes again.
pub fn pack_xpi(xpi_bytes: &[u8]) -> (r: Result<String, ExtensionError>)
    ensures
        match packed(xpi_bytes@) {
            Ok(text) => r matches Ok(t) && t@ == text && unpacked(text) == Ok::<
                Seq<u8>,
                ExtensionError,
            >(xpi_bytes@),
            Err(e) => r matches Err(x) && x == e,
        },
{
    match compress_xpi(xpi_bytes) {
        Ok(frame) => Ok(encode_base64(frame.as_slice())),
        Err(e) => Err(e),
    }
}

/// Unpacks the text of an event into package bytes.
pub fn unpack_xpi(xpi_data: &str) -> (r: Result<Vec<u8>, ExtensionError>)
    ensures
        match unpacked(xpi_data@) {
            Ok(bytes) => r matches Ok(b) && b@ == bytes,
            Err(e) => r matches Err(x) && x == e,
        },
{
    match decode_base64(xpi_data) {
        Ok(frame) => decompress_xpi(frame.as_slice()),
        Err(e) => Err(e),
    }
}

/// Prepares the package file of an extension for a profile: the unpacked
/// bytes, to be written as `extensions/<id>.xpi` below the profile
/// directory.
pub fn install_to_profile(xpi_data: &str, extension_id: &str) -> (r: Result<
    PackageFile,
    ExtensionError,
>)
    ensures
        match unpacked(xpi_data@) {
            Ok(bytes) => r matches Ok(file) && file@ == package_file(extension_id@, bytes),
            Err(e) => r matches Err(x) && x == e,
        },
{
    match unpack_xpi(xpi_data) {
        Ok(bytes) => {
            let name = join(extension_id, ".xpi");
            let path = join("extensions/", name.as_str());
            proof {
                assert(path@ =~= package_path(extension_id@));
            }
            Ok(PackageFile { id: extension_id.to_owned(), path, bytes })
        },
        Err(e) => Err(e),
    }
}

} // verus!
