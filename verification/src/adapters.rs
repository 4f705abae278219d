//! Where images are read from and written to: which adapter handles a URI.
use vstd::prelude::*;
use crate::text::string_of;
use crate::text::{chars_of, contains_text, has_infix, has_prefix, starts_with};

verus! {

/// The adapters that can read or write an image.
#[derive(Clone, Copy, Debug, PartialEq, Eq, Structural)]
pub enum FileAdapter {
    /// Files of the local file system.
    Local,
    /// Resources reached over HTTP.
    Http,
}

/// Why no adapter was found for a URI.
#[derive(Debug)]
pub enum AdapterError {
    /// The adapter cannot handle the URI (held).
    CannotHandle(FileAdapter, String),
    /// No adapter can read the source (held).
    NoSourceAdapter(String),
    /// No adapter can write the destination (held).
    NoDestinationAdapter(String),
}

impl AdapterError {
    /// The error message.
    pub fn to_string(&self) -> (r: String)
        ensures
            r@ == (match *self {
                AdapterError::CannotHandle(FileAdapter::Local, uri) => "[LocalFileAdapter] Cannot handle URI scheme: "@
                    + uri@,
                AdapterError::CannotHandle(FileAdapter::Http, uri) => "HttpAdapter cannot handle URI: "@ + uri@,
                AdapterError::NoSourceAdapter(uri) => "No suitable adapter found for source: "@ + uri@,
                AdapterError::NoDestinationAdapter(uri) => "No suitable adapter found for destination: "@
                    + uri@,
            }),
    {
        match self {
            AdapterError::CannotHandle(FileAdapter::Local, uri) => String::from_str(
                "[LocalFileAdapter] Cannot handle URI scheme: ",
            ).concat(uri.as_str()),
            AdapterError::CannotHandle(FileAdapter::Http, uri) => String::from_str(
                "HttpAdapter cannot handle URI: ",
            ).concat(uri.as_str()),
            AdapterError::NoSourceAdapter(uri) => String::from_str(
                "No suitable adapter found for source: ",
            ).concat(uri.as_str()),
            AdapterError::NoDestinationAdapter(uri) => String::from_str(
                "No suitable adapter found for destination: ",
            ).concat(uri.as_str()),
        }
    }
}

/// A local path: no scheme, or the `file://` scheme.
pub open spec fn local_uri(uri: Seq<char>) -> bool {
    !has_infix(uri, "://"@) || has_prefix(uri, "file://"@)
}

/// An `http://` or `https://` URI.
pub open spec fn http_uri(uri: Seq<char>) -> bool {
    has_prefix(uri, "http://"@) || has_prefix(uri, "https://"@)
}

/// The first adapter, local before HTTP, that handles `uri`.
pub open spec fn adapter_for(uri: Seq<char>) -> Option<FileAdapter> {
    if local_uri(uri) {
        Some(FileAdapter::Local)
    } else if http_uri(uri) {
        Some(FileAdapter::Http)
    } else {
        None
    }
}

/// The local file system adapter.
#[derive(Clone, Copy, Debug, PartialEq, Eq, Structural)]
pub struct LocalFileAdapter;

impl LocalFileAdapter {
    /// Paths without scheme and `file://` URIs.
    pub fn can_handle(&self, uri: &str) -> (b: bool)
        ensures
            b == local_uri(uri@),
    {
        let cs = chars_of(uri);
        !contains_text(cs.as_slice(), "://") || starts_with(cs.as_slice(), "file://")
    }

    /// The adapter, as the reader of `uri`, or an error when it cannot handle it.
    pub fn create_source(&self, uri: &str) -> (r: Result<FileAdapter, AdapterError>)
        ensures
            local_uri(uri@) ==> r == Ok::<FileAdapter, AdapterError>(FileAdapter::Local),
            !local_uri(uri@) ==> (r matches Err(AdapterError::CannotHandle(FileAdapter::Local, u))
                && u@ == uri@),
    {
        if !self.can_handle(uri) {
            return Err(AdapterError::CannotHandle(FileAdapter::Local, String::from_str(uri)));
        }
        Ok(FileAdapter::Local)
    }

    /// The adapter, as the writer of `uri`, or an error when it cannot handle it.
    pub fn create_destination(&self, uri: &str) -> (r: Result<FileAdapter, AdapterError>)
        ensures
            local_uri(uri@) ==> r == Ok::<FileAdapter, AdapterError>(FileAdapter::Local),
            !local_uri(uri@) ==> (r matches Err(AdapterError::CannotHandle(FileAdapter::Local, u))
                && u@ == uri@),
    {
        if !self.can_handle(uri) {
            return Err(AdapterError::CannotHandle(FileAdapter::Local, String::from_str(uri)));
        }
        Ok(FileAdapter::Local)
    }
}

/// The HTTP adapter.
#[derive(Clone, Copy, Debug, PartialEq, Eq, Structural)]
pub struct HttpFileAdapterFactory;

impl HttpFileAdapterFactory {
    /// `http://` and `https://` URIs.
    pub fn can_handle(&self, uri: &str) -> (b: bool)
        ensures
            b == http_uri(uri@),
    {
        let cs = chars_of(uri);
        starts_with(cs.as_slice(), "http://") || starts_with(cs.as_slice(), "https://")
    }

    /// The adapter, as the reader of `uri`, or an error when it cannot handle it.
    pub fn create_source(&self, uri: &str) -> (r: Result<FileAdapter, AdapterError>)
        ensures
            http_uri(uri@) ==> r == Ok::<FileAdapter, AdapterError>(FileAdapter::Http),
            !http_uri(uri@) ==> (r matches Err(AdapterError::CannotHandle(FileAdapter::Http, u))
                && u@ == uri@),
    {
        if !self.can_handle(uri) {
            return Err(AdapterError::CannotHandle(FileAdapter::Http, String::from_str(uri)));
        }
        Ok(FileAdapter::Http)
    }

    /// The adapter, as the writer of `uri`, or an error when it cannot handle it.
    pub fn create_destination(&self, uri: &str) -> (r: Result<FileAdapter, AdapterError>)
        ensures
            http_uri(uri@) ==> r == Ok::<FileAdapter, AdapterError>(FileAdapter::Http),
            !http_uri(uri@) ==> (r matches Err(AdapterError::CannotHandle(FileAdapter::Http, u))
                && u@ == uri@),
    {
        if !self.can_handle(uri) {
            return Err(AdapterError::CannotHandle(FileAdapter::Http, String::from_str(uri)));
        }
        Ok(FileAdapter::Http)
    }
}

/// An HTTP destination: holds the bytes of the last write.
pub struct HttpDestination {
    buffer: Vec<u8>,
}

impl View for HttpDestination {
    type V = Seq<u8>;

    closed spec fn view(&self) -> Seq<u8> {
        self.buffer@
    }
}

impl HttpDestination {
    /// A destination that holds nothing yet.
    pub fn new() -> (d: HttpDestination)
        ensures
            d@ == Seq::<u8>::empty(),
    {
        HttpDestination { buffer: Vec::new() }
    }

    /// Replaces what the destination holds by `data`.
    pub fn write(&mut self, _path: &str, data: &[u8])
        ensures
            final(self)@ == data@,
    {
        self.buffer.clear();
        let mut i: usize = 0;
        while i < data.len()
            invariant
                i <= data@.len(),
                self.buffer@ == data@.take(i as int),
            decreases data@.len() - i,
        {
            self.buffer.push(data[i]);
            i = i + 1;
            assert(self.buffer@ =~= data@.take(i as int));
        }
        assert(data@.take(i as int) =~= data@);
    }

    /// The bytes of the last write.
    pub fn contents(&self) -> (v: &Vec<u8>)
        ensures
            v@ == self@,
    {
        &self.buffer
    }
}

/// Picks the adapter for a source or destination URI.
pub struct AdapterResolver;

impl AdapterResolver {
    /// The adapter that reads `source`: local paths first, then HTTP.
    pub fn resolve_source(source: &str) -> (r: Result<FileAdapter, AdapterError>)
        ensures
            match adapter_for(source@) {
                Some(a) => r == Ok::<FileAdapter, AdapterError>(a),
                None => r matches Err(AdapterError::NoSourceAdapter(u)) && u@ == source@,
            },
    {
        if LocalFileAdapter.can_handle(source) {
            return LocalFileAdapter.create_source(source);
        }
        if HttpFileAdapterFactory.can_handle(source) {
            return HttpFileAdapterFactory.create_source(source);
        }
        Err(AdapterError::NoSourceAdapter(String::from_str(source)))
    }

    /// The adapter that writes `destination`: local paths first, then HTTP.
    pub fn resolve_destination(destination: &str) -> (r: Result<FileAdapter, AdapterError>)
        ensures
            match adapter_for(destination@) {
                Some(a) => r == Ok::<FileAdapter, AdapterError>(a),
                None => r matches Err(AdapterError::NoDestinationAdapter(u)) && u@ == destination@,
            },
    {
        if LocalFileAdapter.can_handle(destination) {
            return LocalFileAdapter.create_destination(destination);
        }
        if HttpFileAdapterFactory.can_handle(destination) {
            return HttpFileAdapterFactory.create_destination(destination);
        }
        Err(AdapterError::NoDestinationAdapter(String::from_str(destination)))
    }
}

/// A decoded image (`image::DynamicImage`), carried through unread.
#[verifier::external_type_specification]
#[verifier::external_body]
pub struct ExDynamicImage(image::DynamicImage);

/// Why `image` could not decode some bytes.
#[verifier::external_type_specification]
#[verifier::external_body]
pub struct ExImageError(image::ImageError);

/// Width, height and whether there is an alpha channel, of the image that
/// `image::load_from_memory` decodes from some bytes; `None` where it fails.
pub uninterp spec fn decoded_header(bytes: Seq<u8>) -> Option<(u32, u32, bool)>;

/// `image::load_from_memory`: decodes the bytes in the format it guesses from
/// them, and reports the image's width, height and alpha channel. The contract
/// names what the decoder finds without restating it; it depends on the bytes
/// alone.
#[verifier::external_body]
fn load_from_memory(bytes: &[u8]) -> (r: Result<(image::DynamicImage, u32, u32, bool), image::ImageError>)
    ensures
        match r {
            Ok((_, w, h, alpha)) => decoded_header(bytes@) == Some((w, h, alpha)),
            Err(_) => decoded_header(bytes@) is None,
        },
{
    match image::load_from_memory(bytes) {
        Ok(img) => {
            let (w, h, alpha) = (img.width(), img.height(), img.color().has_alpha());
            Ok((img, w, h, alpha))
        },
        Err(e) => Err(e),
    }
}

/// A decoded image with what the pipeline reads of it.
pub struct DecodedImage {
    pub image: image::DynamicImage,
    pub width: u32,
    pub height: u32,
    pub has_alpha: bool,
}

/// Bytes that are no image `image` can decode.
pub enum DecodeError {
    Image(image::ImageError),
}

/// Decodes fetched or encoded bytes into an image.
pub fn decode_image(bytes: &[u8]) -> (r: Result<DecodedImage, DecodeError>)
    ensures
        match r {
            Ok(d) => decoded_header(bytes@) == Some((d.width, d.height, d.has_alpha)),
            Err(_) => decoded_header(bytes@) is None,
        },
{
    match load_from_memory(bytes) {
        Ok((image, width, height, has_alpha)) => Ok(DecodedImage { image, width, height, has_alpha }),
        Err(e) => Err(DecodeError::Image(e)),
    }
}

} // verus!
