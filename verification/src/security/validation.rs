//! Validation of text, paths and addresses.

use vstd::prelude::*;
use vstd::hash_set::StringHashSet;
use crate::text::{char_is_control, chars_of, push_decimal, spec_alphanumeric, spec_contains, spec_control, spec_decimal, spec_lowercase, spec_starts_with, string_of};

verus! {

/// Why an input was refused.
#[derive(Debug, PartialEq)]
pub enum ValidationError {
    Empty,
    TooLong { max: usize, actual: usize },
    TooShort { min: usize, actual: usize },
    InvalidCharacters,
    InvalidEmail,
    InvalidUrl,
    InvalidJson(String),
    PathTraversal,
    DisallowedExtension(String),
    Custom(String),
}

impl ValidationError {
    /// The error as a sentence for the user.
    pub open spec fn spec_message(self) -> Seq<char> {
        match self {
            ValidationError::Empty => "Input cannot be empty"@,
            ValidationError::TooLong { max, actual } => "Input too long: "@ + spec_decimal(
                actual as nat,
            ) + " characters (max "@ + spec_decimal(max as nat) + ")"@,
            ValidationError::TooShort { min, actual } => "Input too short: "@ + spec_decimal(
                actual as nat,
            ) + " characters (min "@ + spec_decimal(min as nat) + ")"@,
            ValidationError::InvalidCharacters => "Input contains invalid characters"@,
            ValidationError::InvalidEmail => "Invalid email format"@,
            ValidationError::InvalidUrl => "Invalid URL format"@,
            ValidationError::InvalidJson(m) => "Invalid JSON: "@ + m@,
            ValidationError::PathTraversal => "Path traversal detected"@,
            ValidationError::DisallowedExtension(e) => "File extension not allowed: "@ + e@,
            ValidationError::Custom(m) => m@,
        }
    }

    /// The error as a sentence for the user.
    pub fn message(&self) -> (r: String)
        ensures
            r@ == self.spec_message(),
    {
        match self {
            ValidationError::Empty => String::from_str("Input cannot be empty"),
            ValidationError::TooLong { max, actual } => {
                let mut r = String::from_str("Input too long: ");
                push_decimal(&mut r, *actual as u64);
                r.append(" characters (max ");
                push_decimal(&mut r, *max as u64);
                r.append(")");
                r
            },
            ValidationError::TooShort { min, actual } => {
                let mut r = String::from_str("Input too short: ");
                push_decimal(&mut r, *actual as u64);
                r.append(" characters (min ");
                push_decimal(&mut r, *min as u64);
                r.append(")");
                r
            },
            ValidationError::InvalidCharacters => String::from_str(
                "Input contains invalid characters",
            ),
            ValidationError::InvalidEmail => String::from_str("Invalid email format"),
            ValidationError::InvalidUrl => String::from_str("Invalid URL format"),
            ValidationError::InvalidJson(m) => {
                let mut r = String::from_str("Invalid JSON: ");
                r.append(m.as_str());
                r
            },
            ValidationError::PathTraversal => String::from_str("Path traversal detected"),
            ValidationError::DisallowedExtension(e) => {
                let mut r = String::from_str("File extension not allowed: ");
                r.append(e.as_str());
                r
            },
            ValidationError::Custom(m) => m.clone(),
        }
    }
}

/// The file extensions that are allowed unless said otherwise.
pub open spec fn spec_default_extension_list() -> Seq<Seq<char>> {
    seq![
        "txt"@,
        "md"@,
        "json"@,
        "yaml"@,
        "yml"@,
        "png"@,
        "jpg"@,
        "jpeg"@,
        "gif"@,
        "webp"@,
        "bmp"@,
        "wav"@,
        "mp3"@,
        "ogg"@,
        "flac"@,
        "m4a"@,
        "pdf"@,
        "doc"@,
        "docx"@,
        "xls"@,
        "xlsx"@,
    ]
}

/// The set of the file extensions that are allowed unless said otherwise.
pub open spec fn spec_default_extensions() -> Set<Seq<char>> {
    Set::new(|extension: Seq<char>| spec_default_extension_list().contains(extension))
}

/// A validator of inputs.
pub struct InputValidator {
    max_text_length: usize,
    max_path_length: usize,
    /// Lowercased extensions.
    allowed_file_extensions: StringHashSet,
}

/// The model of an `InputValidator`.
pub struct ValidatorView {
    pub max_text_length: usize,
    pub max_path_length: usize,
    pub allowed_file_extensions: Set<Seq<char>>,
}

impl View for InputValidator {
    type V = ValidatorView;

    closed spec fn view(&self) -> ValidatorView {
        ValidatorView {
            max_text_length: self.max_text_length,
            max_path_length: self.max_path_length,
            allowed_file_extensions: self.allowed_file_extensions@,
        }
    }
}

/// The verdict on a text: refused where it is empty, longer in bytes than
/// `max`, or holds a null character.
pub open spec fn spec_validate_text(text: Seq<char>, byte_len: usize, max: usize) -> Option<
    ValidationError,
> {
    if text.len() == 0 {
        Some(ValidationError::Empty)
    } else if byte_len > max {
        Some(ValidationError::TooLong { max, actual: byte_len })
    } else if text.contains('\0') {
        Some(ValidationError::InvalidCharacters)
    } else {
        None
    }
}

/// Why a path is refused before its extension is looked at, if it is.
pub open spec fn spec_path_shape(path: Seq<char>, byte_len: usize, max: usize) -> Option<
    ValidationError,
> {
    if path.len() == 0 {
        Some(ValidationError::Empty)
    } else if byte_len > max {
        Some(ValidationError::TooLong { max, actual: byte_len })
    } else if spec_contains(path, ".."@) {
        Some(ValidationError::PathTraversal)
    } else if path.contains('\0') {
        Some(ValidationError::InvalidCharacters)
    } else {
        None
    }
}

/// Whether an extension, lowercased, is among the allowed ones.
pub open spec fn spec_extension_allowed(allowed: Set<Seq<char>>, extension: Seq<char>) -> bool {
    allowed.contains(spec_lowercase(extension))
}

/// The verdict on a path whose extension, if it has one, is `extension`:
/// refused for its shape where that is wrong; else refused where it has an
/// extension that is not allowed, and accepted where it has none or an
/// allowed one.
pub open spec fn spec_path_verdict(
    validator: ValidatorView,
    path: Seq<char>,
    byte_len: usize,
    extension: Option<Seq<char>>,
    verdict: Result<(), ValidationError>,
) -> bool {
    match spec_path_shape(path, byte_len, validator.max_path_length) {
        Some(e) => verdict == Err::<(), ValidationError>(e),
        None => match extension {
            Some(ext) => if spec_extension_allowed(validator.allowed_file_extensions, ext) {
                verdict is Ok
            } else {
                verdict matches Err(ValidationError::DisallowedExtension(e)) && e@ == ext
            },
            None => verdict is Ok,
        },
    }
}

/// Why an address is refused, if it is: it has to begin with the scheme of
/// the web, plain or secure, and may hold neither angle brackets nor
/// double quotes.
pub open spec fn spec_validate_url(url: Seq<char>) -> Option<ValidationError> {
    if !spec_starts_with(url, "http://"@) && !spec_starts_with(url, "https://"@) {
        Some(ValidationError::InvalidUrl)
    } else if url.contains('<') || url.contains('>') || url.contains('"') {
        Some(ValidationError::InvalidCharacters)
    } else {
        None
    }
}

/// Whether a character survives the sanitizing of text: everything but
/// control codes, of which line feed, tabulator and carriage return stay.
pub open spec fn spec_text_char(c: char) -> bool {
    !spec_control(c) || c == '\n' || c == '\t' || c == '\r'
}

/// Whether a character may stand in a file name.
pub open spec fn spec_filename_char(c: char) -> bool {
    spec_alphanumeric(c) || c == '.' || c == '-' || c == '_'
}

/// Whether `c` is a path separator that is removed from a file name: a
/// slash or a backslash.
pub open spec fn spec_removed_separator(c: char) -> bool {
    (c == '/' || c == '\\') && !spec_filename_char(c)
}

/// Whether the character at `at` is a dot in a run of dots that begins
/// right behind a removed path separator.
pub open spec fn spec_dot_behind_separator(name: Seq<char>, at: int) -> bool
    decreases at,
{
    &&& 0 < at < name.len()
    &&& name[at] == '.'
    &&& spec_removed_separator(name[at - 1]) || spec_dot_behind_separator(name, at - 1)
}

/// Whether the character at `at` is a dot in a run of dots that ends right
/// before a removed path separator.
pub open spec fn spec_dot_before_separator(name: Seq<char>, at: int) -> bool
    decreases name.len() - at,
{
    &&& 0 <= at
    &&& at + 1 < name.len()
    &&& name[at] == '.'
    &&& spec_removed_separator(name[at + 1]) || spec_dot_before_separator(name, at + 1)
}

/// Whether the character at `at` is a dot that names a directory: one of a
/// run of dots with a removed path separator right before or behind the
/// run, as in `../`.
pub open spec fn spec_climbing_dot(name: Seq<char>, at: int) -> bool {
    spec_dot_behind_separator(name, at) || spec_dot_before_separator(name, at)
}

/// The characters among the first `upto` of a file name that stay when it
/// is sanitized, in order: letters, digits, hyphens, underscores, and the
/// dots that name no directory.
pub open spec fn spec_filename_chars(name: Seq<char>, upto: int) -> Seq<char>
    decreases upto,
{
    if upto <= 0 || upto > name.len() {
        Seq::empty()
    } else {
        let front = spec_filename_chars(name, upto - 1);
        if spec_filename_char(name[upto - 1]) && !spec_climbing_dot(name, upto - 1) {
            front.push(name[upto - 1])
        } else {
            front
        }
    }
}

/// A name made only of letters, digits, dots, hyphens and underscores holds
/// no dot that names a directory.
proof fn lemma_plain_name_has_no_climbing_dot(name: Seq<char>, at: int)
    requires
        forall|k: int| 0 <= k < name.len() ==> spec_filename_char(#[trigger] name[k]),
        0 <= at < name.len(),
    ensures
        !spec_dot_behind_separator(name, at),
        !spec_dot_before_separator(name, at),
{
    lemma_no_dot_behind(name, at);
    lemma_no_dot_before(name, at);
}

proof fn lemma_no_dot_behind(name: Seq<char>, at: int)
    requires
        forall|k: int| 0 <= k < name.len() ==> spec_filename_char(#[trigger] name[k]),
        0 <= at < name.len(),
    ensures
        !spec_dot_behind_separator(name, at),
    decreases at,
{
    if at > 0 {
        assert(spec_filename_char(name[at - 1]));
        lemma_no_dot_behind(name, at - 1);
    }
}

proof fn lemma_no_dot_before(name: Seq<char>, at: int)
    requires
        forall|k: int| 0 <= k < name.len() ==> spec_filename_char(#[trigger] name[k]),
        0 <= at < name.len(),
    ensures
        !spec_dot_before_separator(name, at),
    decreases name.len() - at,
{
    if at + 1 < name.len() {
        assert(spec_filename_char(name[at + 1]));
        lemma_no_dot_before(name, at + 1);
    }
}

/// A name made only of letters, digits, dots, hyphens and underscores is
/// kept as it is.
pub proof fn lemma_plain_name_is_kept(name: Seq<char>, upto: int)
    requires
        forall|k: int| 0 <= k < name.len() ==> spec_filename_char(#[trigger] name[k]),
        0 <= upto <= name.len(),
    ensures
        spec_filename_chars(name, upto) == name.take(upto),
    decreases upto,
{
    if upto > 0 {
        lemma_plain_name_is_kept(name, upto - 1);
        lemma_plain_name_has_no_climbing_dot(name, upto - 1);
        assert(name.take(upto - 1).push(name[upto - 1]) =~= name.take(upto));
    } else {
        assert(name.take(0) =~= Seq::<char>::empty());
    }
}

/// What is kept of a file name are characters that may stand in one, none
/// of them a path separator that was removed.
pub proof fn lemma_kept_chars_are_allowed(name: Seq<char>, upto: int)
    requires
        0 <= upto <= name.len(),
    ensures
        spec_filename_chars(name, upto).len() <= upto,
        forall|k: int|
            0 <= k < spec_filename_chars(name, upto).len() ==> spec_filename_char(
                #[trigger] spec_filename_chars(name, upto)[k],
            ),
    decreases upto,
{
    if upto > 0 {
        lemma_kept_chars_are_allowed(name, upto - 1);
    }
}

/// The first `limit` elements of `s`, or all of it where it is shorter.
pub open spec fn spec_first(s: Seq<char>, limit: usize) -> Seq<char> {
    if s.len() > limit {
        s.take(limit as int)
    } else {
        s
    }
}

/// A JSON value as the JSON library holds it.
#[verifier::external_type_specification]
#[verifier::external_body]
pub struct ExJsonValue(serde_json::Value);

/// What is wrong with a text as JSON: the parser's message, and nothing
/// where the text is JSON.
pub uninterp spec fn json_error(text: Seq<char>) -> Option<Seq<char>>;

/// Reads a text as JSON with `serde_json::from_str`. Whether it succeeds,
/// and with what message it fails, depends on the text alone; of the value
/// nothing is said.
#[verifier::external_body]
fn parse_json(text: &str) -> (r: Result<serde_json::Value, String>)
    ensures
        r is Ok <==> json_error(text@) is None,
        r matches Err(message) ==> json_error(text@) == Some(message@),
{
    match serde_json::from_str::<serde_json::Value>(text) {
        Ok(value) => Ok(value),
        Err(error) => Err(error.to_string()),
    }
}

/// The extension of a path's file name, as `std::path::Path::extension`
/// finds it. What counts as a separator depends on the platform, so the
/// contract promises nothing.
#[verifier::external_body]
fn path_extension(path: &str) -> (r: Option<String>) {
    match std::path::Path::new(path).extension() {
        Some(extension) => extension.to_str().map(String::from),
        None => None,
    }
}

impl InputValidator {
    /// A validator with the default limits and extensions.
    pub fn new() -> (r: Self)
        ensures
            r@ == (ValidatorView {
                max_text_length: 100_000,
                max_path_length: 4096,
                allowed_file_extensions: spec_default_extensions(),
            }),
    {
        let names = [
            "txt",
            "md",
            "json",
            "yaml",
            "yml",
            "png",
            "jpg",
            "jpeg",
            "gif",
            "webp",
            "bmp",
            "wav",
            "mp3",
            "ogg",
            "flac",
            "m4a",
            "pdf",
            "doc",
            "docx",
            "xls",
            "xlsx",
        ];
        let ghost list = spec_default_extension_list();
        assert(list.len() == 21);
        assert forall|k: int| 0 <= k < 21 implies names@[k]@ == #[trigger] list[k] by {}
        let mut allowed = StringHashSet::new();
        let mut i: usize = 0;
        while i < 21
            invariant
                i <= 21,
                names@.len() == 21,
                list == spec_default_extension_list(),
                list.len() == 21,
                forall|k: int| 0 <= k < 21 ==> names@[k]@ == #[trigger] list[k],
                forall|e: Seq<char>|
                    allowed@.contains(e) <==> exists|k: int| 0 <= k < i && #[trigger] list[k] == e,
            decreases 21 - i,
        {
            let ghost before = allowed@;
            allowed.insert(String::from_str(names[i]));
            assert forall|e: Seq<char>| allowed@.contains(e) <==> exists|k: int|
                0 <= k < i + 1 && #[trigger] list[k] == e by {
                if allowed@.contains(e) {
                    if e == list[i as int] {
                    } else {
                        assert(before.contains(e));
                        let k = choose|k: int| 0 <= k < i && #[trigger] list[k] == e;
                        assert(0 <= k < i + 1 && list[k] == e);
                    }
                }
                if exists|k: int| 0 <= k < i + 1 && #[trigger] list[k] == e {
                    let k = choose|k: int| 0 <= k < i + 1 && #[trigger] list[k] == e;
                    if k < i {
                        assert(before.contains(e));
                    }
                }
            }
            i += 1;
        }
        assert(allowed@ =~= spec_default_extensions()) by {
            assert forall|e: Seq<char>| allowed@.contains(e) <==> spec_default_extensions().contains(
                e,
            ) by {
                if allowed@.contains(e) {
                    let k = choose|k: int| 0 <= k < 21 && #[trigger] list[k] == e;
                    assert(list.contains(e));
                }
                if list.contains(e) {
                    let k = choose|k: int| 0 <= k < list.len() && list[k] == e;
                    assert(0 <= k < 21 && list[k] == e);
                }
            }
        }
        InputValidator {
            max_text_length: 100_000,
            max_path_length: 4096,
            allowed_file_extensions: allowed,
        }
    }

    /// Accepts a text unless it is empty, too long or holds a null
    /// character.
    pub fn validate_text(&self, text: &str) -> (r: Result<(), ValidationError>)
        ensures
            match spec_validate_text(text@, text.len(), self@.max_text_length) {
                Some(e) => r == Err::<(), ValidationError>(e),
                None => r is Ok,
            },
    {
        if text.is_empty() {
            return Err(ValidationError::Empty);
        }
        if text.len() > self.max_text_length {
            return Err(
                ValidationError::TooLong { max: self.max_text_length, actual: text.len() },
            );
        }
        if has_char(text, '\0') {
            return Err(ValidationError::InvalidCharacters);
        }
        Ok(())
    }

    /// Accepts a path whose extension, if it has one, is `extension`:
    /// unless the path is empty, too long, climbs to a parent directory,
    /// holds a null character, or has an extension that is not allowed.
    pub fn validate_path_with(&self, path: &str, extension: Option<&str>) -> (r: Result<
        (),
        ValidationError,
    >)
        ensures
            spec_path_verdict(
                self@,
                path@,
                path.len(),
                match extension {
                    Some(ext) => Some(ext@),
                    None => None,
                },
                r,
            ),
    {
        if path.is_empty() {
            return Err(ValidationError::Empty);
        }
        if path.len() > self.max_path_length {
            return Err(
                ValidationError::TooLong { max: self.max_path_length, actual: path.len() },
            );
        }
        if crate::text::contains(path, "..") {
            return Err(ValidationError::PathTraversal);
        }
        if has_char(path, '\0') {
            return Err(ValidationError::InvalidCharacters);
        }
        match extension {
            Some(ext) => {
                let lower = ext.to_lowercase();
                if !self.knows(&lower) {
                    return Err(ValidationError::DisallowedExtension(String::from_str(ext)));
                }
            },
            None => {},
        }
        Ok(())
    }

    /// Accepts a path unless it is empty, too long, climbs to a parent
    /// directory, holds a null character, or has an extension that is not
    /// allowed. Which part of the path is its extension is the platform's
    /// to say.
    pub fn validate_path(&self, path: &str) -> (r: Result<(), ValidationError>)
        ensures
            exists|extension: Option<Seq<char>>| #[trigger]
                spec_path_verdict(self@, path@, path.len(), extension, r),
            spec_path_shape(path@, path.len(), self@.max_path_length) matches Some(e) ==> r
                == Err::<(), ValidationError>(e),
    {
        let extension = path_extension(path);
        match &extension {
            Some(ext) => {
                let r = self.validate_path_with(path, Some(ext.as_str()));
                assert(spec_path_verdict(self@, path@, path.len(), Some(ext@), r));
                r
            },
            None => {
                let r = self.validate_path_with(path, None);
                assert(spec_path_verdict(self@, path@, path.len(), None, r));
                r
            },
        }
    }

    /// Accepts a text of the form of an e-mail address: a name of letters,
    /// digits, dots, underscores, percent, plus and hyphen signs, an at
    /// sign, a domain of letters, digits, dots and hyphens, a dot, and an
    /// ending of two letters or more.
    pub fn validate_email(&self, email: &str) -> (r: Result<(), ValidationError>)
        ensures
            spec_is_email(email@) ==> r is Ok,
            !spec_is_email(email@) ==> r == Err::<(), ValidationError>(
                ValidationError::InvalidEmail,
            ),
    {
        if !is_email(email) {
            return Err(ValidationError::InvalidEmail);
        }
        Ok(())
    }

    /// Accepts a valid text that is JSON, and gives its value.
    pub fn validate_json(&self, json: &str) -> (r: Result<serde_json::Value, ValidationError>)
        ensures
            match spec_validate_text(json@, json.len(), self@.max_text_length) {
                Some(e) => r == Err::<serde_json::Value, ValidationError>(e),
                None => match json_error(json@) {
                    Some(message) => r matches Err(ValidationError::InvalidJson(m)) && m@
                        == message,
                    None => r is Ok,
                },
            },
    {
        match self.validate_text(json) {
            Ok(()) => {},
            Err(e) => {
                return Err(e);
            },
        }
        match parse_json(json) {
            Ok(value) => Ok(value),
            Err(message) => Err(ValidationError::InvalidJson(message)),
        }
    }

    /// Accepts an address of the web without angle brackets and double
    /// quotes.
    pub fn validate_url(&self, url: &str) -> (r: Result<(), ValidationError>)
        ensures
            match spec_validate_url(url@) {
                Some(e) => r == Err::<(), ValidationError>(e),
                None => r is Ok,
            },
    {
        if !crate::text::starts_with(url, "http://") && !crate::text::starts_with(
            url,
            "https://",
        ) {
            return Err(ValidationError::InvalidUrl);
        }
        if has_char(url, '<') || has_char(url, '>') || has_char(url, '"') {
            return Err(ValidationError::InvalidCharacters);
        }
        Ok(())
    }

    /// The text without control codes, but for line feeds, tabulators and
    /// carriage returns, cut to the most characters that a text may have.
    pub fn sanitize_text(&self, text: &str) -> (r: String)
        ensures
            r@ == spec_first(
                text@.filter(|c: char| spec_text_char(c)),
                self@.max_text_length,
            ),
    {
        let chars = chars_of(text);
        let ghost keep = |c: char| spec_text_char(c);
        let mut kept: Vec<char> = Vec::new();
        let mut i: usize = 0;
        assert(chars@.take(0).filter(keep) =~= Seq::<char>::empty()) by {
            reveal(Seq::filter);
        }
        while i < chars.len()
            invariant
                i <= chars.len(),
                keep == |c: char| spec_text_char(c),
                kept@ == spec_first(chars@.take(i as int).filter(keep), self.max_text_length),
            decreases chars.len() - i,
        {
            let c = chars[i];
            proof {
                chars@.take(i as int).lemma_filter_push(c, keep);
                assert(chars@.take(i + 1) =~= chars@.take(i as int).push(c));
            }
            if (!char_is_control(c) || c == '\n' || c == '\t' || c == '\r') && kept.len()
                < self.max_text_length {
                kept.push(c);
            }
            proof {
                let before = chars@.take(i as int).filter(keep);
                let after = chars@.take(i + 1).filter(keep);
                assert(kept@ =~= spec_first(after, self.max_text_length));
            }
            i += 1;
        }
        assert(chars@.take(chars.len() as int) =~= chars@);
        string_of(&kept)
    }

    /// The file name without anything but letters, digits, dots, hyphens
    /// and underscores, cut to 255 characters. Dots that name a directory,
    /// those of a run of dots right before or behind a slash or backslash,
    /// are dropped with the separator. A name made only of the characters
    /// that may stand in a file name comes back as it is, cut to 255.
    pub fn sanitize_filename(&self, filename: &str) -> (r: String)
        ensures
            r@ == spec_first(spec_filename_chars(filename@, filename@.len() as int), 255),
            (forall|k: int| 0 <= k < filename@.len() ==> spec_filename_char(#[trigger] filename@[k]))
                ==> r@ == spec_first(filename@, 255),
    {
        let chars = chars_of(filename);
        let n = chars.len();
        let mut behind: Vec<bool> = Vec::new();
        let mut i: usize = 0;
        while i < n
            invariant
                i <= n == chars.len(),
                behind.len() == i,
                forall|k: int|
                    0 <= k < i ==> #[trigger] behind@[k] == spec_dot_behind_separator(chars@, k),
            decreases n - i,
        {
            let here = chars[i] == '.' && i > 0 && (is_removed_separator(chars[i - 1]) || behind[i
                - 1]);
            behind.push(here);
            i += 1;
        }
        // Filled from the last character to the first.
        let mut before: Vec<bool> = Vec::new();
        let mut left: usize = n;
        while left > 0
            invariant
                left <= n == chars.len(),
                before.len() == n - left,
                forall|k: int|
                    left <= k < n ==> #[trigger] before@[n - 1 - k] == spec_dot_before_separator(
                        chars@,
                        k,
                    ),
            decreases left,
        {
            let at: usize = left - 1;
            let here = chars[at] == '.' && at + 1 < n && (is_removed_separator(chars[at + 1])
                || before[n - 1 - (at + 1)]);
            before.push(here);
            left -= 1;
        }
        let mut kept: Vec<char> = Vec::new();
        i = 0;
        while i < n
            invariant
                i <= n == chars.len(),
                behind.len() == n,
                before.len() == n,
                forall|k: int|
                    0 <= k < n ==> #[trigger] behind@[k] == spec_dot_behind_separator(chars@, k),
                forall|k: int|
                    0 <= k < n ==> #[trigger] before@[n - 1 - k] == spec_dot_before_separator(
                        chars@,
                        k,
                    ),
                kept@ == spec_first(spec_filename_chars(chars@, i as int), 255),
            decreases n - i,
        {
            let c = chars[i];
            let climbing = behind[i] || before[n - 1 - i];
            assert(climbing == spec_climbing_dot(chars@, i as int));
            if is_filename_char(c) && !climbing && kept.len() < 255 {
                kept.push(c);
            }
            proof {
                let after = spec_filename_chars(chars@, i + 1);
                assert(kept@ =~= spec_first(after, 255));
            }
            i += 1;
        }
        proof {
            if forall|k: int| 0 <= k < filename@.len() ==> spec_filename_char(#[trigger] filename@[k]) {
                lemma_plain_name_is_kept(chars@, n as int);
                assert(chars@.take(n as int) =~= chars@);
            }
        }
        string_of(&kept)
    }

    /// Allows one more extension, lowercased.
    pub fn add_extension(&mut self, ext: &str)
        ensures
            final(self)@ == (ValidatorView {
                allowed_file_extensions: old(self)@.allowed_file_extensions.insert(
                    spec_lowercase(ext@),
                ),
                ..old(self)@
            }),
    {
        self.allowed_file_extensions.insert(ext.to_lowercase());
    }

    /// Sets the most bytes and characters that a text may have.
    pub fn set_max_text_length(&mut self, max: usize)
        ensures
            final(self)@ == (ValidatorView { max_text_length: max, ..old(self)@ }),
    {
        self.max_text_length = max;
    }

    /// Whether the extension is among the allowed ones.
    fn knows(&self, extension: &String) -> (r: bool)
        ensures
            r == self@.allowed_file_extensions.contains(extension@),
    {
        self.allowed_file_extensions.contains(extension.as_str())
    }
}

impl Default for InputValidator {
    fn default() -> (r: Self)
        ensures
            r@ == (ValidatorView {
                max_text_length: 100_000,
                max_path_length: 4096,
                allowed_file_extensions: spec_default_extensions(),
            }),
    {
        InputValidator::new()
    }
}

/// Whether `c` is a letter of the Latin alphabet without diacritics.
pub open spec fn spec_ascii_letter(c: char) -> bool {
    let n = c as u32;
    0x41 <= n <= 0x5a || 0x61 <= n <= 0x7a
}

/// Whether `c` may stand in the domain of an address: a letter, a digit, a
/// dot or a hyphen.
pub open spec fn spec_domain_char(c: char) -> bool {
    let n = c as u32;
    spec_ascii_letter(c) || 0x30 <= n <= 0x39 || c == '.' || c == '-'
}

/// Whether `c` may stand before the at sign of an address: what may stand
/// in a domain, an underscore, a percent sign or a plus sign.
pub open spec fn spec_local_char(c: char) -> bool {
    spec_domain_char(c) || c == '_' || c == '%' || c == '+'
}

/// The text is an address split at `at` and `dot`: a name of one character
/// or more, an at sign, a domain of one character or more, a dot, and an
/// ending of two letters or more.
pub open spec fn spec_email_split(text: Seq<char>, at: int, dot: int) -> bool {
    &&& 1 <= at
    &&& at + 2 <= dot
    &&& dot + 3 <= text.len()
    &&& text[at] == '@'
    &&& text[dot] == '.'
    &&& forall|k: int| 0 <= k < at ==> spec_local_char(#[trigger] text[k])
    &&& forall|k: int| at < k < dot ==> spec_domain_char(#[trigger] text[k])
    &&& forall|k: int| dot < k < text.len() ==> spec_ascii_letter(#[trigger] text[k])
}

/// The text has the form of an e-mail address.
pub open spec fn spec_is_email(text: Seq<char>) -> bool {
    exists|at: int, dot: int| spec_email_split(text, at, dot)
}

/// An address can be split in one way only: at its first at sign and its
/// last dot.
proof fn lemma_email_split_is_unique(text: Seq<char>, at: int, dot: int, first_at: int, last_dot: int)
    requires
        spec_email_split(text, at, dot),
        0 <= first_at < text.len(),
        text[first_at] == '@',
        forall|k: int| 0 <= k < first_at ==> text[k] != '@',
        0 <= last_dot < text.len(),
        text[last_dot] == '.',
        forall|k: int| last_dot < k < text.len() ==> text[k] != '.',
    ensures
        at == first_at,
        dot == last_dot,
{
    if first_at < at {
        assert(spec_local_char(text[first_at]));
    }
    if at < first_at {
        assert(text[at] != '@');
    }
    if dot < last_dot {
        assert(spec_ascii_letter(text[last_dot]));
    }
    if last_dot < dot {
        assert(text[dot] != '.');
    }
}

fn is_ascii_letter(c: char) -> (r: bool)
    ensures
        r == spec_ascii_letter(c),
{
    let n: u32 = c as u32;
    (0x41 <= n && n <= 0x5a) || (0x61 <= n && n <= 0x7a)
}

fn is_domain_char(c: char) -> (r: bool)
    ensures
        r == spec_domain_char(c),
{
    let n: u32 = c as u32;
    is_ascii_letter(c) || (0x30 <= n && n <= 0x39) || c == '.' || c == '-'
}

fn is_local_char(c: char) -> (r: bool)
    ensures
        r == spec_local_char(c),
{
    is_domain_char(c) || c == '_' || c == '%' || c == '+'
}

/// Whether the text has the form of an e-mail address.
pub fn is_email(email: &str) -> (r: bool)
    ensures
        r == spec_is_email(email@),
{
    let chars = chars_of(email);
    let n = chars.len();
    let mut at: usize = 0;
    while at < n && chars[at] != '@'
        invariant
            at <= n == chars.len(),
            forall|k: int| 0 <= k < at ==> chars@[k] != '@',
        decreases n - at,
    {
        at += 1;
    }
    if at == n {
        assert(!spec_is_email(chars@)) by {
            if spec_is_email(chars@) {
                let (a, d) = choose|a: int, d: int| spec_email_split(chars@, a, d);
                assert(chars@[a] == '@');
            }
        }
        return false;
    }
    let mut end: usize = n;
    while end > 0 && chars[end - 1] != '.'
        invariant
            end <= n == chars.len(),
            forall|k: int| end <= k < n ==> chars@[k] != '.',
        decreases end,
    {
        end -= 1;
    }
    if end == 0 {
        assert(!spec_is_email(chars@)) by {
            if spec_is_email(chars@) {
                let (a, d) = choose|a: int, d: int| spec_email_split(chars@, a, d);
                assert(chars@[d] == '.');
            }
        }
        return false;
    }
    let dot: usize = end - 1;
    proof {
        if spec_is_email(chars@) {
            let (a, d) = choose|a: int, d: int| spec_email_split(chars@, a, d);
            lemma_email_split_is_unique(chars@, a, d, at as int, dot as int);
        }
    }
    if at < 1 || dot < 2 || at > dot - 2 || n < 3 || dot > n - 3 {
        return false;
    }
    let mut k: usize = 0;
    while k < at
        invariant
            k <= at < n == chars.len(),
            forall|j: int| 0 <= j < k ==> spec_local_char(#[trigger] chars@[j]),
            chars@ == email@,
            spec_is_email(chars@) ==> spec_email_split(chars@, at as int, dot as int),
        decreases at - k,
    {
        if !is_local_char(chars[k]) {
            return false;
        }
        k += 1;
    }
    k = at + 1;
    while k < dot
        invariant
            at < k <= dot < n == chars.len(),
            forall|j: int| at < j < k ==> spec_domain_char(#[trigger] chars@[j]),
            chars@ == email@,
            spec_is_email(chars@) ==> spec_email_split(chars@, at as int, dot as int),
        decreases dot - k,
    {
        if !is_domain_char(chars[k]) {
            return false;
        }
        k += 1;
    }
    k = dot + 1;
    while k < n
        invariant
            dot < k <= n == chars.len(),
            forall|j: int| dot < j < k ==> spec_ascii_letter(#[trigger] chars@[j]),
            chars@ == email@,
            spec_is_email(chars@) ==> spec_email_split(chars@, at as int, dot as int),
        decreases n - k,
    {
        if !is_ascii_letter(chars[k]) {
            return false;
        }
        k += 1;
    }
    assert(spec_email_split(chars@, at as int, dot as int));
    true
}

/// Whether `c` may stand in a file name.
fn is_filename_char(c: char) -> (r: bool)
    ensures
        r == spec_filename_char(c),
{
    c.is_alphanumeric() || c == '.' || c == '-' || c == '_'
}

/// Whether `c` is a path separator that is removed from a file name.
fn is_removed_separator(c: char) -> (r: bool)
    ensures
        r == spec_removed_separator(c),
{
    (c == '/' || c == '\\') && !is_filename_char(c)
}

/// Whether `c` occurs in `text`.
fn has_char(text: &str, c: char) -> (r: bool)
    ensures
        r == text@.contains(c),
{
    let chars = chars_of(text);
    let mut i: usize = 0;
    while i < chars.len()
        invariant
            i <= chars.len(),
            chars@ == text@,
            forall|k: int| 0 <= k < i ==> chars@[k] != c,
        decreases chars.len() - i,
    {
        if chars[i] == c {
            return true;
        }
        i += 1;
    }
    false
}

/// Why what is to be remembered is refused, if it is: like any text, and
/// also where it is shorter than three bytes.
pub open spec fn spec_validate_memory(content: Seq<char>, byte_len: usize) -> Option<
    ValidationError,
> {
    match spec_validate_text(content, byte_len, 100_000) {
        Some(e) => Some(e),
        None => if byte_len < 3 {
            Some(ValidationError::TooShort { min: 3, actual: byte_len })
        } else {
            None
        },
    }
}

/// Accepts what is to be remembered: a valid text of three bytes or more.
pub fn validate_memory_content(content: &str) -> (r: Result<(), ValidationError>)
    ensures
        match spec_validate_memory(content@, content.len()) {
            Some(e) => r == Err::<(), ValidationError>(e),
            None => r is Ok,
        },
{
    let validator = InputValidator::new();
    match validator.validate_text(content) {
        Ok(()) => {},
        Err(e) => {
            return Err(e);
        },
    }
    if content.len() < 3 {
        return Err(ValidationError::TooShort { min: 3, actual: content.len() });
    }
    Ok(())
}

/// The shape of a JSON value: how its arrays and objects are nested.
#[derive(Debug, PartialEq)]
pub enum JsonShape {
    /// Null, a boolean, a number or a string.
    Leaf,
    /// An array with the shapes of its elements.
    Array(Vec<JsonShape>),
    /// An object with the shapes of its members' values.
    Object(Vec<JsonShape>),
}

/// How deeply a session context may be nested.
pub const MAX_CONTEXT_DEPTH: usize = 10;

impl JsonShape {
    /// What is nested in the value.
    pub open spec fn children(self) -> Seq<JsonShape> {
        match self {
            JsonShape::Leaf => Seq::empty(),
            JsonShape::Array(items) => items@,
            JsonShape::Object(values) => values@,
        }
    }

    /// Whether the value, standing `depth` levels below the top, or
    /// something nested in it stands more than the allowed levels below.
    pub open spec fn too_deep(self, depth: nat) -> bool
        decreases self,
    {
        depth > MAX_CONTEXT_DEPTH || match self {
            JsonShape::Leaf => false,
            JsonShape::Array(items) => exists|k: int|
                0 <= k < items@.len() && (#[trigger] items@[k]).too_deep(depth + 1),
            JsonShape::Object(values) => exists|k: int|
                0 <= k < values@.len() && (#[trigger] values@[k]).too_deep(depth + 1),
        }
    }
}

/// Whether one of the values, each `depth` levels below the top, is nested
/// too deeply.
fn any_too_deep(items: &Vec<JsonShape>, depth: usize) -> (r: bool)
    requires
        depth <= MAX_CONTEXT_DEPTH + 1,
    ensures
        r == exists|k: int| 0 <= k < items@.len() && (#[trigger] items@[k]).too_deep(depth as nat),
    decreases items,
{
    let mut i: usize = 0;
    while i < items.len()
        invariant
            i <= items.len(),
            depth <= MAX_CONTEXT_DEPTH + 1,
            forall|k: int| 0 <= k < i ==> !(#[trigger] items@[k]).too_deep(depth as nat),
        decreases items.len() - i,
    {
        if is_too_deep(&items[i], depth) {
            return true;
        }
        i += 1;
    }
    false
}

/// Whether the value, standing `depth` levels below the top, is nested too
/// deeply.
fn is_too_deep(value: &JsonShape, depth: usize) -> (r: bool)
    requires
        depth <= MAX_CONTEXT_DEPTH + 1,
    ensures
        r == value.too_deep(depth as nat),
    decreases value,
{
    if depth > MAX_CONTEXT_DEPTH {
        return true;
    }
    match value {
        JsonShape::Leaf => false,
        JsonShape::Array(items) => any_too_deep(items, depth + 1),
        JsonShape::Object(values) => any_too_deep(values, depth + 1),
    }
}

/// Accepts a session context unless something in it is nested more than
/// ten levels deep.
pub fn validate_session_context(context: &JsonShape) -> (r: Result<(), ValidationError>)
    ensures
        !context.too_deep(0) ==> r is Ok,
        context.too_deep(0) ==> (r matches Err(ValidationError::Custom(m)) && m@
            == "JSON too deeply nested"@),
{
    if is_too_deep(context, 0) {
        return Err(ValidationError::Custom(String::from_str("JSON too deeply nested")));
    }
    Ok(())
}

} // verus!
