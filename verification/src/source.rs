use vstd::prelude::*;
use vstd::string::*;
use crate::bitmap::{
    buffer_fits, decode, decoded_image, fill_color, image_error_text, resize_exact, resize_fits,
    resized_exact, Bitmap, FilterKind,
};
use crate::decimal::{decimal, decimal_text};
use crate::errors::Errors;

verus! {

/// Where one input image comes from.
#[derive(Clone, Debug)]
#[allow(inconsistent_fields)]
pub enum ImageJson {
    DiscordProfile { id: u64, hash: String },
    GithubProfile { username: String },
    GithubAsset { owner: String, repo: String, path: String },
    Imgur { id: String, subdomain: String },
    Color(u8, u8, u8),
    Base64(String),
    File(String),
}

/// The two inputs of a merge: the base and the layer.
#[derive(Debug)]
pub struct TwoImagesJson(pub [ImageJson; 2]);

/// One entry of the error list in a GitHub error envelope.
#[derive(Debug)]
pub struct GithubError {
    pub code: String,
}

/// The two shapes in which GitHub answers a request for a path's metadata.
#[derive(Debug)]
pub enum GithubContentsResponse {
    GithubContents { size: u32, type_: String, download_url: String },
    GithubError { message: String, errors: Vec<GithubError> },
}

/// What has to happen before the bytes of a source are at hand.
#[derive(Debug)]
pub enum Acquire {
    /// The bytes are here already.
    Bytes(Vec<u8>),
    /// Fetch this URL; the body is the image.
    Fetch(String),
    /// Fetch this URL; the body describes the asset.
    GithubContents(String),
    /// Read this name through the asset cache.
    LocalFile(String),
}

/// The largest GitHub asset that is fetched, in bytes.
pub const GITHUB_ASSET_LIMIT: u32 = 500000;

/// The edge length used where a request names none.
pub const DEFAULT_SIZE: u32 = 1024;

/// The thumbnail suffix for a requested size: none for size 0, else that of
/// the smallest breakpoint not below the size, and of the largest beyond all.
pub open spec fn imgur_suffix_text(size: u32) -> Seq<char> {
    if size == 0 {
        ""@
    } else if size <= 90 {
        "s"@
    } else if size <= 160 {
        "b"@
    } else if size <= 320 {
        "m"@
    } else if size <= 640 {
        "l"@
    } else {
        "h"@
    }
}

/// The breakpoints of the thumbnail table, ascending, and their suffixes.
pub open spec fn imgur_table() -> Seq<(u32, Seq<char>)> {
    seq![(90u32, "s"@), (160u32, "b"@), (320u32, "m"@), (640u32, "l"@), (1024u32, "h"@)]
}

/// The suffix chosen for a non-zero size is that of the first table entry
/// whose breakpoint is not below the size, or the last entry's where there is
/// none.
pub proof fn imgur_suffix_is_smallest_breakpoint(size: u32)
    requires
        size != 0,
    ensures
        forall|k: int|
            0 <= k < 5 && imgur_table()[k].0 >= size && (forall|j: int|
                0 <= j < k ==> imgur_table()[j].0 < size) ==> imgur_suffix_text(size)
                == imgur_table()[k].1,
        (forall|j: int| 0 <= j < 5 ==> imgur_table()[j].0 < size) ==> imgur_suffix_text(size)
            == imgur_table()[4].1,
{
    let t = imgur_table();
    assert(t[0] == (90u32, "s"@));
    assert(t[1] == (160u32, "b"@));
    assert(t[2] == (320u32, "m"@));
    assert(t[3] == (640u32, "l"@));
    assert(t[4] == (1024u32, "h"@));
    assert forall|k: int|
        0 <= k < 5 && t[k].0 >= size && (forall|j: int|
            0 <= j < k ==> t[j].0 < size) implies imgur_suffix_text(size) == t[k].1 by {
        if k >= 1 {
            assert(t[k - 1].0 < size);
        }
    }
}

/// The thumbnail suffix for a requested size.
pub fn imgur_suffix(size: u32) -> (s: &'static str)
    ensures
        s@ == imgur_suffix_text(size),
{
    if size == 0 {
        ""
    } else if size <= 90 {
        "s"
    } else if size <= 160 {
        "b"
    } else if size <= 320 {
        "m"
    } else if size <= 640 {
        "l"
    } else {
        "h"
    }
}

/// The URL of the metadata of a path in a GitHub repository.
pub open spec fn github_contents_url_text(owner: Seq<char>, repo: Seq<char>, path: Seq<char>) -> Seq<char> {
    "https://api.github.com/repos/"@ + owner + "/"@ + repo + "/contents/"@ + path
}

pub fn github_contents_url(owner: &str, repo: &str, path: &str) -> (url: String)
    ensures
        url@ == github_contents_url_text(owner@, repo@, path@),
{
    let mut url = String::from_str("https://api.github.com/repos/");
    url.append(owner);
    url.append("/");
    url.append(repo);
    url.append("/contents/");
    url.append(path);
    url
}

/// Some entry of the list carries the code `too_large`.
pub open spec fn has_too_large(errors: Seq<GithubError>) -> bool {
    exists|i: int| 0 <= i < errors.len() && #[trigger] errors[i].code@ == "too_large"@
}

fn any_too_large(errors: &Vec<GithubError>) -> (found: bool)
    ensures
        found == has_too_large(errors@),
{
    let wanted = String::from_str("too_large");
    let mut i: usize = 0;
    while i < errors.len()
        invariant
            i <= errors.len(),
            wanted@ == "too_large"@,
            forall|j: int| 0 <= j < i ==> #[trigger] errors[j].code@ != "too_large"@,
        decreases errors.len() - i,
    {
        if errors[i].code == wanted {
            return true;
        }
        i = i + 1;
    }
    false
}

/// What GitHub's answer about a path leads to: the URL to download from, or
/// the reason why nothing is downloaded.
pub open spec fn github_outcome(response: GithubContentsResponse, r: Result<String, Errors>) -> bool {
    match response {
        GithubContentsResponse::GithubError { message, errors } => {
            if has_too_large(errors@) {
                r matches Err(Errors::SizeLimit(m)) && m@ == "File too large"@
            } else {
                r matches Err(Errors::InvalidInput(m)) && m@ == "Message from github: "@ + message@
            }
        },
        GithubContentsResponse::GithubContents { size, type_, download_url } => {
            if type_@ != "file"@ {
                r matches Err(Errors::InvalidInput(m)) && m@ == "Given path is not a file, it is "@
                    + type_@
            } else if size > GITHUB_ASSET_LIMIT {
                r matches Err(Errors::SizeLimit(m)) && m@ == "File size too large, must be below "@
                    + decimal_text(GITHUB_ASSET_LIMIT as nat)
            } else {
                r matches Ok(url) && url@ == download_url@
            }
        },
    }
}

/// Decides from GitHub's answer about a path whether its content is fetched.
pub fn github_download_url(response: GithubContentsResponse) -> (r: Result<String, Errors>)
    ensures
        github_outcome(response, r),
{
    match response {
        GithubContentsResponse::GithubError { message, errors } => {
            if any_too_large(&errors) {
                return Err(Errors::SizeLimit(String::from_str("File too large")));
            }
            let mut text = String::from_str("Message from github: ");
            text.append(message.as_str());
            Err(Errors::InvalidInput(text))
        },
        GithubContentsResponse::GithubContents { size, type_, download_url } => {
            if type_ != String::from_str("file") {
                let mut text = String::from_str("Given path is not a file, it is ");
                text.append(type_.as_str());
                return Err(Errors::InvalidInput(text));
            }
            if size > GITHUB_ASSET_LIMIT {
                let mut text = String::from_str("File size too large, must be below ");
                let limit = decimal(GITHUB_ASSET_LIMIT as u64);
                text.append(limit.as_str());
                return Err(Errors::SizeLimit(text));
            }
            Ok(download_url)
        },
    }
}

/// What the standard base64 alphabet with padding decodes `text` to, or
/// `None` where `text` is no such encoding.
pub uninterp spec fn base64_decoded(text: Seq<char>) -> Option<Seq<u8>>;

/// `base64::decode`: the decoded bytes, or `None` where it reports an error.
#[verifier::external_body]
fn decode_base64(text: &str) -> (r: Option<Vec<u8>>)
    ensures
        match r {
            Some(bytes) => base64_decoded(text@) == Some(bytes@),
            None => base64_decoded(text@).is_none(),
        },
{
    base64::decode(text).ok()
}

/// Turns the outcome of a base64 decoding into bytes at hand or the error
/// for a malformed string.
pub fn base64_bytes(decoded: Option<Vec<u8>>) -> (r: Result<Acquire, Errors>)
    ensures
        match decoded {
            Some(bytes) => r matches Ok(Acquire::Bytes(b)) && b@ == bytes@,
            None => r matches Err(Errors::InvalidInput(m)) && m@
                == "Invalid base64 string provided"@,
        },
{
    match decoded {
        Some(bytes) => Ok(Acquire::Bytes(bytes)),
        None => Err(Errors::InvalidInput(String::from_str("Invalid base64 string provided"))),
    }
}

impl ImageJson {
    /// The source is fetched from a URL that its fields determine.
    pub open spec fn has_url(&self) -> bool {
        self is DiscordProfile || self is GithubProfile || self is Imgur
    }

    /// The URL from which a source of this kind is fetched at a requested
    /// size, where 0 asks for the provider's default.
    pub open spec fn url_text(&self, size: u32) -> Seq<char> {
        match self {
            ImageJson::DiscordProfile { id, hash } => "https://cdn.discordapp.com/avatars/"@
                + decimal_text(*id as nat) + "/"@ + hash@ + ".png?size="@ + decimal_text(
                if size == 0 {
                    DEFAULT_SIZE as nat
                } else {
                    size as nat
                },
            ),
            ImageJson::GithubProfile { username } => {
                let base = "https://github.com/"@ + username@ + ".png"@;
                if size == 0 {
                    base
                } else {
                    base + "?size="@ + decimal_text(size as nat)
                }
            },
            ImageJson::Imgur { id, subdomain } => {
                let host = if subdomain@.len() == 0 {
                    "https://"@
                } else {
                    "https://"@ + subdomain@ + "."@
                };
                host + "imgur.com/"@ + id@ + imgur_suffix_text(size) + ".png"@
            },
            _ => Seq::empty(),
        }
    }

    /// Builds the URL of a source that is fetched directly.
    pub fn url(&self, size: u32) -> (r: Result<String, Errors>)
        requires
            self.has_url(),
        ensures
            r matches Ok(url) && url@ == self.url_text(size),
    {
        match self {
            ImageJson::DiscordProfile { id, hash } => {
                let mut url = String::from_str("https://cdn.discordapp.com/avatars/");
                let id_text = decimal(*id);
                url.append(id_text.as_str());
                url.append("/");
                url.append(hash.as_str());
                url.append(".png?size=");
                let size_text = decimal(if size == 0 { DEFAULT_SIZE as u64 } else { size as u64 });
                url.append(size_text.as_str());
                Ok(url)
            },
            ImageJson::GithubProfile { username } => {
                let mut url = String::from_str("https://github.com/");
                url.append(username.as_str());
                url.append(".png");
                if size != 0 {
                    url.append("?size=");
                    let size_text = decimal(size as u64);
                    url.append(size_text.as_str());
                }
                Ok(url)
            },
            ImageJson::Imgur { id, subdomain } => {
                let mut url = String::from_str("https://");
                if subdomain.as_str().unicode_len() != 0 {
                    url.append(subdomain.as_str());
                    url.append(".");
                }
                url.append("imgur.com/");
                url.append(id.as_str());
                url.append(imgur_suffix(size));
                url.append(".png");
                Ok(url)
            },
            _ => Err(Errors::InternalError(String::from_str("source has no URL"))),
        }
    }

    /// What `to_vec` answers for a source other than a colour, given what the
    /// base64 decoder makes of the text of a `Base64` source.
    pub open spec fn acquisition(
        &self,
        size: u32,
        allow_local_file_input: bool,
        r: Result<Acquire, Errors>,
    ) -> bool {
        match self {
            ImageJson::Base64(text) => match base64_decoded(text@) {
                Some(bytes) => r matches Ok(Acquire::Bytes(b)) && b@ == bytes,
                None => r matches Err(Errors::InvalidInput(m)) && m@
                    == "Invalid base64 string provided"@,
            },
            ImageJson::GithubAsset { owner, repo, path } => r matches Ok(
                Acquire::GithubContents(url),
            ) && url@ == github_contents_url_text(owner@, repo@, path@),
            ImageJson::File(name) => if allow_local_file_input {
                r matches Ok(Acquire::LocalFile(n)) && n@ == name@
            } else {
                r matches Err(Errors::InvalidInput(m)) && m@ == "Local file input is disabled."@
            },
            ImageJson::Color(..) => true,
            _ => r matches Ok(Acquire::Fetch(url)) && url@ == self.url_text(size),
        }
    }

    /// Says how the bytes of this source are come by: they are decoded here,
    /// or the caller is told what to fetch or read. A colour has no bytes and
    /// is not asked for them.
    pub fn to_vec(&self, size: u32, allow_local_file_input: bool) -> (r: Result<Acquire, Errors>)
        requires
            !(self is Color),
        ensures
            self.acquisition(size, allow_local_file_input, r),
    {
        match self {
            ImageJson::Base64(text) => base64_bytes(decode_base64(text.as_str())),
            ImageJson::GithubAsset { owner, repo, path } => Ok(
                Acquire::GithubContents(
                    github_contents_url(owner.as_str(), repo.as_str(), path.as_str()),
                ),
            ),
            ImageJson::File(name) => {
                if !allow_local_file_input {
                    return Err(
                        Errors::InvalidInput(String::from_str("Local file input is disabled.")),
                    );
                }
                Ok(Acquire::LocalFile(name.clone()))
            },
            ImageJson::Color(..) => Err(
                Errors::InternalError(String::from_str("source has no bytes")),
            ),
            _ => {
                let url = self.url(size)?;
                Ok(Acquire::Fetch(url))
            },
        }
    }
}

/// The image that leaves the resolver for a decoded image and a requested
/// size: scaled to a square of that edge where the size is not 0 and either
/// dimension differs from it, else as it is.
pub open spec fn sized_content(image: (u32, u32, Seq<u8>), size: u32) -> (u32, u32, Seq<u8>) {
    if size != 0 && (image.0 != size || image.1 != size) {
        (size, size, resized_exact(image.2, image.0, image.1, size, size, FilterKind::Nearest))
    } else {
        image
    }
}

/// Brings an image to the requested size.
pub fn sized(image: Bitmap, size: u32) -> (r: Bitmap)
    requires
        image.wf(),
        size != 0 ==> image.has_pixels() && resize_fits(image.width, size, size),
    ensures
        r.wf(),
        r.content() == sized_content(image.content(), size),
        size != 0 ==> r.width == size && r.height == size,
{
    if size != 0 && (image.width != size || image.height != size) {
        resize_exact(&image, size, size, FilterKind::Nearest)
    } else {
        image
    }
}

/// What becomes of a decoded image, or of the decoder's complaint, at a
/// requested size.
pub open spec fn checked_outcome(decoded: Result<Bitmap, String>, size: u32, r: Result<Bitmap, Errors>) -> bool {
    match decoded {
        Err(text) => r matches Err(Errors::Decode(m)) && m@ == text@,
        Ok(image) => if size == 0 {
            r matches Ok(out) && out.content() == image.content()
        } else if !resize_fits(image.width, size, size) {
            r matches Err(Errors::SizeLimit(m)) && m@ == "Requested size is too large"@
        } else if !image.has_pixels() {
            r matches Err(Errors::Decode(m)) && m@ == "Image has no pixels"@
        } else {
            r matches Ok(out) && out.wf() && out.width == size && out.height == size
                && out.content() == sized_content(image.content(), size)
        },
    }
}

/// The common tail of every source but a colour: a decoding failure is
/// reported, a decoded image is brought to the requested size.
pub fn checked_image(decoded: Result<Bitmap, String>, size: u32) -> (r: Result<Bitmap, Errors>)
    requires
        decoded matches Ok(image) ==> image.wf(),
    ensures
        checked_outcome(decoded, size, r),
        r matches Ok(out) ==> out.wf(),
{
    match decoded {
        Err(text) => Err(Errors::Decode(text)),
        Ok(image) => {
            if size == 0 {
                Ok(image)
            } else if !buffer_fits(size, size) || !buffer_fits(image.width, size) {
                Err(Errors::SizeLimit(String::from_str("Requested size is too large")))
            } else if image.width == 0 || image.height == 0 {
                Err(Errors::Decode(String::from_str("Image has no pixels")))
            } else {
                Ok(sized(image, size))
            }
        },
    }
}

/// What `load_image` answers for bytes and a requested size, given what the
/// codec makes of the bytes.
pub open spec fn loaded_outcome(bytes: Seq<u8>, size: u32, r: Result<Bitmap, Errors>) -> bool {
    match decoded_image(bytes) {
        None => r matches Err(Errors::Decode(_)),
        Some(image) => if size == 0 {
            r matches Ok(out) && out.wf() && out.content() == image
        } else if !resize_fits(image.0, size, size) {
            r matches Err(Errors::SizeLimit(m)) && m@ == "Requested size is too large"@
        } else if image.0 == 0 || image.1 == 0 {
            r matches Err(Errors::Decode(m)) && m@ == "Image has no pixels"@
        } else {
            r matches Ok(out) && out.wf() && out.width == size && out.height == size
                && out.content() == sized_content(image, size)
        },
    }
}

/// Decodes bytes to a bitmap, the format guessed from them, and brings it to
/// the requested size, where 0 asks for the image as it is.
pub fn load_image(bytes: &Vec<u8>, size: u32) -> (r: Result<Bitmap, Errors>)
    ensures
        loaded_outcome(bytes@, size, r),
{
    let decoded = match decode(bytes) {
        Ok(image) => Ok(image),
        Err(error) => Err(image_error_text(&error)),
    };
    checked_image(decoded, size)
}

impl ImageJson {
    /// What `to_image` answers for the acquired bytes, given what the codec
    /// makes of them.
    pub open spec fn image_outcome(&self, size: u32, bytes: Seq<u8>, r: Result<Bitmap, Errors>) -> bool {
        match self {
            ImageJson::Color(red, green, blue) => {
                let edge = if size == 0 {
                    DEFAULT_SIZE
                } else {
                    size
                };
                r matches Ok(out) && out.wf() && out.width == edge && out.height == edge
                    && out.is_solid((*red, *green, *blue, 255u8))
            },
            _ => loaded_outcome(bytes, size, r),
        }
    }

    /// Resolves the source to a bitmap once its bytes are at hand. A colour is
    /// synthesized and reads no bytes; any other source is decoded from
    /// `bytes`, the format guessed from them, and brought to the requested
    /// size.
    pub fn to_image(&self, size: u32, bytes: &Vec<u8>) -> (r: Result<Bitmap, Errors>)
        ensures
            self.image_outcome(size, bytes@, r),
    {
        match self {
            ImageJson::Color(red, green, blue) => {
                let edge = if size == 0 { DEFAULT_SIZE } else { size };
                Ok(fill_color([*red, *green, *blue], (edge, edge)))
            },
            _ => load_image(bytes, size),
        }
    }
}

} // verus!
