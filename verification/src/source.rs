//! Installer artifacts: what was downloaded, from where, and what kind of
//! installer it looks like.

use vstd::prelude::*;

use crate::command::is_web_scheme;
use crate::pattern::{find_first, regex_search};
use crate::text::{
    chars_of, contains, contains_exec, decode_lossy, ends_with, ends_with_exec, has_char, lower,
    lower_exec, starts_with, starts_with_exec, str_eq, utf8_lossy,
};
use crate::weburl::{parse_url, url_parse, UrlView, WebUrl};

verus! {

/// The interpreter family an installer is written for.
#[derive(Clone, Copy, Debug, PartialEq, Eq, Structural)]
pub enum InstallerKind {
    Bash,
    PowerShell,
    Python,
    Executable,
    Text,
}

/// A downloaded installer: its exact bytes, its detected kind, and the final
/// URL it was served from.
#[derive(Debug)]
pub struct Artifact {
    pub bytes: Vec<u8>,
    pub kind: InstallerKind,
    pub url: WebUrl,
}

/// The largest installer, in bytes, that is downloaded and analysed.
pub const MAX_INSTALLER_BYTES: u64 = 20_000_000;

/// A URL of an installer inside a command line.
pub const INSTALLER_URL_PATTERN: &'static str = r#"https?://[^\s"'|;)]+"#;

/// Why no installer could be obtained from an input.
#[derive(Clone, Copy, Debug, PartialEq, Eq, Structural)]
pub enum SourceError {
    /// The URL pattern itself could not be compiled.
    InvalidPattern,
    /// The input holds no HTTP or HTTPS URL.
    NoUrlFound,
    /// The URL found in the input does not parse.
    InvalidUrl,
    /// The URL does not use HTTP or HTTPS.
    UnsupportedScheme,
    /// The installer is larger than [`MAX_INSTALLER_BYTES`].
    TooLarge,
    /// The download was empty.
    Empty,
}

/// The message shown for a source error.
pub open spec fn source_error_text(e: SourceError) -> Seq<char> {
    match e {
        SourceError::InvalidPattern => "invalid installer URL pattern"@,
        SourceError::NoUrlFound => "no HTTP or HTTPS installer URL found"@,
        SourceError::InvalidUrl => "invalid installer URL"@,
        SourceError::UnsupportedScheme => "only HTTP and HTTPS installer sources are supported"@,
        SourceError::TooLarge => "installer exceeds the 20 MB analysis limit"@,
        SourceError::Empty => "downloaded installer is empty"@,
    }
}

impl SourceError {
    /// The message shown for this error.
    pub fn message(&self) -> (m: String)
        ensures
            m@ == source_error_text(*self),
    {
        match self {
            SourceError::InvalidPattern => String::from_str("invalid installer URL pattern"),
            SourceError::NoUrlFound => String::from_str("no HTTP or HTTPS installer URL found"),
            SourceError::InvalidUrl => String::from_str("invalid installer URL"),
            SourceError::UnsupportedScheme => String::from_str(
                "only HTTP and HTTPS installer sources are supported",
            ),
            SourceError::TooLarge => String::from_str("installer exceeds the 20 MB analysis limit"),
            SourceError::Empty => String::from_str("downloaded installer is empty"),
        }
    }
}

/// Accepts a URL only when it uses HTTP or HTTPS.
pub open spec fn validated(u: UrlView) -> Result<UrlView, SourceError> {
    if is_web_scheme(u.1) {
        Ok(u)
    } else {
        Err(SourceError::UnsupportedScheme)
    }
}

/// The installer URL named by an input: the input itself when it is an
/// absolute URL, otherwise the first HTTP(S) URL inside it.
pub open spec fn extracted_url(input: Seq<char>) -> Result<UrlView, SourceError> {
    match url_parse(input) {
        Some(u) => validated(u),
        None => match regex_search(INSTALLER_URL_PATTERN@, input) {
            None => Err(SourceError::InvalidPattern),
            Some(None) => Err(SourceError::NoUrlFound),
            Some(Some((_, m, _))) => match url_parse(m) {
                Some(u) => validated(u),
                None => Err(SourceError::InvalidUrl),
            },
        },
    }
}

/// The abstract content of a URL result.
pub open spec fn url_result_view(r: Result<WebUrl, SourceError>) -> Result<UrlView, SourceError> {
    match r {
        Ok(u) => Ok(u.view()),
        Err(e) => Err(e),
    }
}

/// Accepts a URL only when it uses HTTP or HTTPS.
pub fn validate_url(url: WebUrl) -> (r: Result<WebUrl, SourceError>)
    ensures
        url_result_view(r) == validated(url.view()),
{
    if str_eq(url.scheme.as_str(), "http") || str_eq(url.scheme.as_str(), "https") {
        Ok(url)
    } else {
        Err(SourceError::UnsupportedScheme)
    }
}

/// Finds the installer URL in an input (a URL or a command line).
pub fn extract_url(input: &str) -> (r: Result<WebUrl, SourceError>)
    ensures
        url_result_view(r) == extracted_url(input@),
{
    if let Some(url) = parse_url(input) {
        return validate_url(url);
    }
    match find_first(INSTALLER_URL_PATTERN, input) {
        None => Err(SourceError::InvalidPattern),
        Some(None) => Err(SourceError::NoUrlFound),
        Some(Some((_, m, _))) => match parse_url(m.as_str()) {
            Some(url) => validate_url(url),
            None => Err(SourceError::InvalidUrl),
        },
    }
}

/// The first line of `s` (`str::lines().next()`, or empty): up to the first
/// `\n`, without a `\r` right before it.
pub open spec fn first_line(s: Seq<char>) -> Seq<char> {
    if s.contains('\n') {
        let l = s.take(crate::text::first_index(s, '\n'));
        if l.len() > 0 && l.last() == '\r' {
            l.drop_last()
        } else {
            l
        }
    } else {
        s
    }
}

/// The first `n` bytes of `b` (all of them when it is shorter).
pub open spec fn byte_prefix(b: Seq<u8>, n: int) -> Seq<u8> {
    if b.len() <= n {
        b
    } else {
        b.take(n)
    }
}

/// Some of the first 1024 bytes is a NUL byte.
pub open spec fn has_nul_early(b: Seq<u8>) -> bool {
    exists|i: int| 0 <= i < 1024 && 0 <= i < b.len() && b[i] == 0
}

/// The installer kind suggested by the URL path, the shebang line of the
/// first 256 bytes, the content type, and NUL bytes early in the content.
pub open spec fn detected_kind(path: Seq<char>, content_type: Seq<char>, bytes: Seq<u8>) -> InstallerKind {
    let p = lower(path);
    let line = first_line(lower(utf8_lossy(byte_prefix(bytes, 256))));
    let shebang = starts_with(line, "#!"@);
    if ends_with(p, ".ps1"@) {
        InstallerKind::PowerShell
    } else if ends_with(p, ".py"@) {
        InstallerKind::Python
    } else if ends_with(p, ".sh"@) || shebang && (contains(line, "bash"@) || contains(line, "/sh"@)) {
        InstallerKind::Bash
    } else if shebang && (contains(line, "powershell"@) || contains(line, "pwsh"@)) {
        InstallerKind::PowerShell
    } else if shebang && contains(line, "python"@) {
        InstallerKind::Python
    } else if contains(content_type, "octet-stream"@) || has_nul_early(bytes) {
        InstallerKind::Executable
    } else {
        InstallerKind::Text
    }
}

/// The URL path's extension decides first: a path ending in `.ps1` is a
/// PowerShell installer, one ending in `.py` a Python installer, and one
/// ending in `.sh` a Bash installer, whatever the content and content type
/// (the extension compared without regard to ASCII case).
pub proof fn the_path_extension_decides_the_kind(path: Seq<char>, content_type: Seq<char>, bytes: Seq<u8>)
    ensures
        ends_with(lower(path), ".ps1"@) ==> detected_kind(path, content_type, bytes)
            == InstallerKind::PowerShell,
        !ends_with(lower(path), ".ps1"@) && ends_with(lower(path), ".py"@) ==> detected_kind(
            path,
            content_type,
            bytes,
        ) == InstallerKind::Python,
        !ends_with(lower(path), ".ps1"@) && !ends_with(lower(path), ".py"@) && ends_with(
            lower(path),
            ".sh"@,
        ) ==> detected_kind(path, content_type, bytes) == InstallerKind::Bash,
{
}

/// Without a telling extension, the shebang line decides (bash or `/sh`
/// first, then PowerShell, then Python); without either, binary content (an
/// octet-stream content type or a NUL byte within the first 1024 bytes) is
/// an executable, and anything else is plain text.  Plain text is reported
/// only when none of these signs is present.
pub proof fn content_decides_the_kind_without_an_extension(path: Seq<char>, content_type: Seq<char>, bytes: Seq<u8>)
    ensures
        ({
            let p = lower(path);
            let line = first_line(lower(utf8_lossy(byte_prefix(bytes, 256))));
            let no_ext = !ends_with(p, ".ps1"@) && !ends_with(p, ".py"@) && !ends_with(p, ".sh"@);
            let shebang = starts_with(line, "#!"@);
            &&& no_ext && shebang && contains(line, "bash"@) ==> detected_kind(path, content_type, bytes)
                == InstallerKind::Bash
            &&& no_ext && shebang && !contains(line, "bash"@) && !contains(line, "/sh"@) && contains(
                line,
                "pwsh"@,
            ) ==> detected_kind(path, content_type, bytes) == InstallerKind::PowerShell
            &&& no_ext && !shebang && contains(content_type, "octet-stream"@) ==> detected_kind(
                path,
                content_type,
                bytes,
            ) == InstallerKind::Executable
            &&& no_ext && !shebang && has_nul_early(bytes) ==> detected_kind(path, content_type, bytes)
                == InstallerKind::Executable
            &&& detected_kind(path, content_type, bytes) == InstallerKind::Text ==> no_ext && !contains(
                content_type,
                "octet-stream"@,
            ) && !has_nul_early(bytes)
        }),
{
}

/// An input with no `http(s)://` URL anywhere is refused as holding none,
/// and an empty download is refused.
pub proof fn inputs_without_a_url_are_refused(input: Seq<char>)
    ensures
        url_parse(input) is None && regex_search(INSTALLER_URL_PATTERN@, input) == Some(
            None::<(Seq<char>, Seq<char>, Seq<char>)>,
        ) ==> extracted_url(input) == Err::<UrlView, SourceError>(SourceError::NoUrlFound),
{
}

/// A URL is accepted as an installer source exactly when its scheme is
/// `http` or `https`, whether it is the whole input or found inside a
/// command line; any other scheme is refused as unsupported.
pub proof fn web_urls_are_accepted_wherever_they_stand(input: Seq<char>)
    ensures
        url_parse(input) matches Some(u) ==> (extracted_url(input) == if u.1 == "http"@ || u.1 == "https"@ {
            Ok::<UrlView, SourceError>(u)
        } else {
            Err(SourceError::UnsupportedScheme)
        }),
        url_parse(input) is None ==> (regex_search(INSTALLER_URL_PATTERN@, input) matches Some(Some((b, m, a)))
            ==> (url_parse(m) matches Some(u) ==> extracted_url(input) == if u.1 == "http"@ || u.1
            == "https"@ {
            Ok::<UrlView, SourceError>(u)
        } else {
            Err(SourceError::UnsupportedScheme)
        })),
{
}

fn first_line_exec(s: &[char]) -> (l: Vec<char>)
    ensures
        l@ == first_line(s@),
{
    if has_char(s, '\n') {
        let mut i: usize = 0;
        while s[i] != '\n'
            invariant
                i < s.len(),
                s@.contains('\n'),
                forall|k: int| 0 <= k < i ==> s@[k] != '\n',
                exists|k: int| i <= k < s.len() && s@[k] == '\n',
            decreases s.len() - i,
        {
            i = i + 1;
        }
        proof {
            crate::text::lemma_first_index(s@, '\n', i as int);
        }
        if i > 0 && s[i - 1] == '\r' {
            crate::text::slice_of(s, 0, i - 1)
        } else {
            crate::text::slice_of(s, 0, i)
        }
    } else {
        crate::text::slice_of(s, 0, s.len())
    }
}

fn has_nul_early_exec(b: &[u8]) -> (r: bool)
    ensures
        r == has_nul_early(b@),
{
    let mut i: usize = 0;
    while i < b.len() && i < 1024
        invariant
            i <= b.len(),
            i <= 1024,
            forall|k: int| 0 <= k < i ==> b@[k] != 0,
        decreases 1024 - i,
    {
        if b[i] == 0 {
            return true;
        }
        i = i + 1;
    }
    false
}

/// Detects the installer kind from the URL, the declared content type and the content.
pub fn detect_kind(url: &WebUrl, content_type: &str, bytes: &[u8]) -> (k: InstallerKind)
    ensures
        k == detected_kind(url.path@, content_type@, bytes@),
{
    let pc = chars_of(url.path.as_str());
    let p = lower_exec(pc.as_slice());
    let n = if bytes.len() < 256 {
        bytes.len()
    } else {
        256
    };
    let head = vstd::slice::slice_subrange(bytes, 0, n);
    assert(head@ == byte_prefix(bytes@, 256));
    let text = decode_lossy(head);
    let tc = chars_of(text.as_str());
    let low = lower_exec(tc.as_slice());
    let line = first_line_exec(low.as_slice());
    let line = line.as_slice();
    let shebang = starts_with_exec(line, chars_of("#!").as_slice());
    if ends_with_exec(p.as_slice(), chars_of(".ps1").as_slice()) {
        InstallerKind::PowerShell
    } else if ends_with_exec(p.as_slice(), chars_of(".py").as_slice()) {
        InstallerKind::Python
    } else if ends_with_exec(p.as_slice(), chars_of(".sh").as_slice()) || shebang && (
    contains_exec(line, chars_of("bash").as_slice()) || contains_exec(
        line,
        chars_of("/sh").as_slice(),
    )) {
        InstallerKind::Bash
    } else if shebang && (contains_exec(line, chars_of("powershell").as_slice()) || contains_exec(
        line,
        chars_of("pwsh").as_slice(),
    )) {
        InstallerKind::PowerShell
    } else if shebang && contains_exec(line, chars_of("python").as_slice()) {
        InstallerKind::Python
    } else if contains_exec(
        chars_of(content_type).as_slice(),
        chars_of("octet-stream").as_slice(),
    ) || has_nul_early_exec(bytes) {
        InstallerKind::Executable
    } else {
        InstallerKind::Text
    }
}

/// A declared content length is acceptable when it does not exceed the limit.
pub fn declared_size_allowed(content_length: Option<u64>) -> (ok: bool)
    ensures
        ok == (match content_length {
            Some(n) => n <= MAX_INSTALLER_BYTES,
            None => true,
        }),
{
    match content_length {
        Some(n) => n <= MAX_INSTALLER_BYTES,
        None => true,
    }
}

/// Another chunk of `chunk` bytes may be appended to `received` bytes
/// without exceeding the limit.
pub fn chunk_fits(received: usize, chunk: usize) -> (ok: bool)
    ensures
        ok == (received + chunk <= MAX_INSTALLER_BYTES),
{
    received as u64 <= MAX_INSTALLER_BYTES && chunk as u64 <= MAX_INSTALLER_BYTES - received as u64
}

/// Appends a received chunk to the download, unless that would take it past
/// the limit, in which case the download is refused and left as it was.
pub fn append_chunk(bytes: &mut Vec<u8>, chunk: &[u8]) -> (r: Result<(), SourceError>)
    ensures
        old(bytes)@.len() + chunk@.len() <= MAX_INSTALLER_BYTES ==> r is Ok && final(bytes)@
            == old(bytes)@ + chunk@,
        old(bytes)@.len() + chunk@.len() > MAX_INSTALLER_BYTES ==> r == Err::<(), SourceError>(
            SourceError::TooLarge,
        ) && final(bytes)@ == old(bytes)@,
{
    if !chunk_fits(bytes.len(), chunk.len()) {
        return Err(SourceError::TooLarge);
    }
    let ghost start = bytes@;
    let mut i: usize = 0;
    while i < chunk.len()
        invariant
            i <= chunk.len(),
            bytes@ == start + chunk@.take(i as int),
        decreases chunk.len() - i,
    {
        bytes.push(chunk[i]);
        i = i + 1;
        assert(bytes@ =~= start + chunk@.take(i as int));
    }
    assert(chunk@.take(chunk@.len() as int) == chunk@);
    Ok(())
}

/// Turns a completed download into an artifact: a download past the limit
/// or an empty one is an error; otherwise the kind is detected from the
/// final URL, the content type and the bytes, which are kept unchanged.
pub fn finish_download(url: WebUrl, content_type: &str, bytes: Vec<u8>) -> (r: Result<Artifact, SourceError>)
    ensures
        bytes@.len() > MAX_INSTALLER_BYTES ==> r == Err::<Artifact, SourceError>(SourceError::TooLarge),
        bytes@.len() == 0 ==> r == Err::<Artifact, SourceError>(SourceError::Empty),
        0 < bytes@.len() <= MAX_INSTALLER_BYTES ==> (r matches Ok(a) && a.bytes@ == bytes@ && a.url
            == url && a.kind == detected_kind(url.path@, content_type@, bytes@)),
        r matches Ok(a) ==> 1 <= a.bytes@.len() <= MAX_INSTALLER_BYTES,
{
    if bytes.len() as u64 > MAX_INSTALLER_BYTES {
        return Err(SourceError::TooLarge);
    }
    if bytes.len() == 0 {
        return Err(SourceError::Empty);
    }
    let kind = detect_kind(&url, content_type, bytes.as_slice());
    Ok(Artifact { bytes, kind, url })
}

} // verus!
