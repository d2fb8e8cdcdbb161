//! Pastes: their classification and where and how they are stored.
use crate::config::PasteConfig;
use crate::naming::{resolve_file_name, resolved_file_name, usable_generated_name, usable_name};
use vstd::prelude::*;

verus! {

/// The directory, under the upload directory, that holds URL pastes.
pub const URL_DIRECTORY: &'static str = "url";

/// Type of the data to store.
#[derive(Clone, Copy, Debug, PartialEq, Eq, Structural)]
pub enum PasteType {
    /// Any type of file.
    File,
    /// A file that only contains an URL.
    Url,
}

/// What a multipart field's content-disposition header says of the field.
#[derive(Clone, Debug)]
pub struct ContentDisposition {
    /// Whether the disposition type is `form-data`.
    pub form_data: bool,
    /// The `name` parameter, if present.
    pub name: Option<String>,
}

/// The submission carries neither a `file` nor a `url` field.
#[derive(Clone, Copy, Debug, PartialEq, Eq, Structural)]
pub struct ClassificationError;

/// Why a URL paste was rejected.
#[derive(Clone, Copy, Debug, PartialEq, Eq, Structural)]
pub enum ValidationError {
    /// The bytes are not valid UTF-8 text.
    NotText,
    /// The text is not an absolute URL.
    NotUrl,
}

/// The form field that carries a file.
pub open spec fn file_field() -> Seq<char> {
    seq!['f', 'i', 'l', 'e']
}

/// The form field that carries a URL.
pub open spec fn url_field() -> Seq<char> {
    seq!['u', 'r', 'l']
}

/// The name of a URL paste without a generated name.
pub open spec fn default_url_name() -> Seq<char> {
    seq!['u', 'r', 'l']
}

impl ContentDisposition {
    /// Whether the disposition describes the form field `field`.
    pub open spec fn describes(&self, field: Seq<char>) -> bool {
        self.form_data && (self.name matches Some(n) && n@ == field)
    }

    /// Tells whether this is the disposition of the form field `field`.
    pub fn has_form_field(&self, field: &str) -> (r: bool)
        ensures
            r == self.describes(field@),
    {
        if !self.form_data {
            return false;
        }
        match &self.name {
            Some(n) => same_text(n.as_str(), field),
            None => false,
        }
    }
}

/// Tells whether two strings hold the same characters.
fn same_text(a: &str, b: &str) -> (r: bool)
    ensures
        r == (a@ == b@),
{
    let n = a.unicode_len();
    if n != b.unicode_len() {
        return false;
    }
    let mut i: usize = 0;
    while i < n
        invariant
            i <= n == a@.len() == b@.len(),
            forall|j: int| 0 <= j < i ==> a@[j] == b@[j],
        decreases n - i,
    {
        if a.get_char(i) != b.get_char(i) {
            return false;
        }
        i = i + 1;
    }
    assert(a@ =~= b@);
    true
}

/// The type of a paste whose field has the disposition `cd`; a `file` field
/// is recognised before a `url` field.
pub open spec fn classified(cd: ContentDisposition) -> Option<PasteType> {
    if cd.describes(file_field()) {
        Some(PasteType::File)
    } else if cd.describes(url_field()) {
        Some(PasteType::Url)
    } else {
        None
    }
}

impl PasteType {
    /// Classifies a paste by the form field that carried it.
    pub fn try_from(content_disposition: &ContentDisposition) -> (r: Result<
        PasteType,
        ClassificationError,
    >)
        ensures
            match classified(*content_disposition) {
                Some(t) => r == Ok::<PasteType, ClassificationError>(t),
                None => r is Err,
            },
    {
        proof {
            reveal_strlit("file");
            reveal_strlit("url");
            assert("file"@ =~= file_field());
            assert("url"@ =~= url_field());
        }
        if content_disposition.has_form_field("file") {
            Ok(PasteType::File)
        } else if content_disposition.has_form_field("url") {
            Ok(PasteType::Url)
        } else {
            Err(ClassificationError)
        }
    }
}

/// Representation of a single paste.
#[derive(Debug)]
pub struct Paste {
    /// Data to store.
    pub data: Vec<u8>,
    /// Type of the data.
    pub type_: PasteType,
}

/// A file to write into the upload directory.
#[derive(Debug)]
pub struct StoredFile {
    /// Its file name.
    pub name: String,
    /// Its contents.
    pub contents: Vec<u8>,
}

/// A URL to write into the URL directory.
#[derive(Debug)]
pub struct StoredUrl {
    /// Its file name.
    pub name: String,
    /// The canonical text of the URL, which is the file's contents.
    pub url: String,
}

/// The extension of the file type that `data` is recognised as, if any.
pub uninterp spec fn content_extension(data: Seq<u8>) -> Option<Seq<char>>;

/// Relies on `infer::get` and `infer::Type::extension`: the extension of the
/// file type that the leading bytes of `data` match, a function of the bytes.
#[verifier::external_body]
fn sniff_extension(data: &Vec<u8>) -> (r: Option<String>)
    ensures
        r.deep_view() == content_extension(data@),
{
    infer::get(data.as_slice()).map(|t| t.extension().to_string())
}

/// The text that `bytes` encode as UTF-8; none where they are not valid UTF-8.
pub uninterp spec fn utf8_text(bytes: Seq<u8>) -> Option<Seq<char>>;

/// Relies on `std::str::from_utf8`: decodes `bytes` as UTF-8 text.
#[verifier::external_body]
fn decode_utf8(bytes: &Vec<u8>) -> (r: Option<String>)
    ensures
        r.deep_view() == utf8_text(bytes@),
{
    std::str::from_utf8(bytes.as_slice()).ok().map(|s| s.to_string())
}

#[verifier::external_type_specification]
#[verifier::external_body]
pub struct ExParseError(url::ParseError);

/// The serialization of the absolute URL that `text` parses as; none where
/// it does not parse.
pub uninterp spec fn url_serialization(text: Seq<char>) -> Option<Seq<char>>;

/// Relies on `url::Url::parse` and `From<Url> for String`: parses `text` as an
/// absolute URL and gives its serialization.
#[verifier::external_body]
fn parse_url(text: &str) -> (r: Result<String, url::ParseError>)
    ensures
        match r {
            Ok(u) => url_serialization(text@) == Some(u@),
            Err(_) => url_serialization(text@) is None,
        },
{
    url::Url::parse(text).map(String::from)
}

/// The file name of a URL paste.
pub open spec fn resolved_url_name(generated: Option<Seq<char>>) -> Seq<char> {
    match usable_name(generated) {
        Some(g) => g,
        None => default_url_name(),
    }
}

impl Paste {
    /// Decides how the paste is kept as a file: under the name resolved from
    /// `file_name`, the paste configuration, the generated name (if any) and
    /// the extension sniffed from the data, with the data as contents.
    pub fn store_file(&self, file_name: &str, config: &PasteConfig, generated: Option<String>) -> (r:
        StoredFile)
        ensures
            r.name@ == resolved_file_name(
                file_name@,
                config.default_extension@,
                generated.deep_view(),
                content_extension(self.data@),
            ),
            r.name@.len() > 0,
            r.contents@ == self.data@,
    {
        let sniffed = sniff_extension(&self.data);
        let name = resolve_file_name(
            file_name,
            config.default_extension.as_str(),
            &generated,
            &sniffed,
        );
        let contents = self.data.clone();
        assert(contents@ =~= self.data@);
        StoredFile { name, contents }
    }

    /// Checks that the data is the text of an absolute URL and decides how it
    /// is kept: its canonical text under the generated name, or `url`.
    pub fn store_url(&self, config: &PasteConfig, generated: Option<String>) -> (r: Result<
        StoredUrl,
        ValidationError,
    >)
        ensures
            match utf8_text(self.data@) {
                None => r == Err::<StoredUrl, ValidationError>(ValidationError::NotText),
                Some(text) => match url_serialization(text) {
                    None => r == Err::<StoredUrl, ValidationError>(ValidationError::NotUrl),
                    Some(u) => r matches Ok(s) && s.url@ == u && s.name@ == resolved_url_name(
                        generated.deep_view(),
                    ),
                },
            },
    {
        let text = match decode_utf8(&self.data) {
            Some(t) => t,
            None => return Err(ValidationError::NotText),
        };
        let url = match parse_url(text.as_str()) {
            Ok(u) => u,
            Err(_) => return Err(ValidationError::NotUrl),
        };
        let name = match usable_generated_name(&generated) {
            Some(g) => String::from_str(g),
            None => {
                let d = String::from_str("url");
                proof {
                    reveal_strlit("url");
                    assert(d@ =~= default_url_name());
                }
                d
            },
        };
        Ok(StoredUrl { name, url })
    }
}

} // verus!
