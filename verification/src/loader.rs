//! Which files of a workspace are loaded, and what text they hold.

use crate::glob::are_moderate;
use vstd::prelude::*;
use vstd::utf8::{decode_utf8, valid_utf8};

verus! {

/// A source file.
#[derive(Debug)]
pub struct LuaFileInfo {
    pub path: String,
    pub content: String,
}

impl LuaFileInfo {
    pub fn into_tuple(self) -> (tuple: (String, Option<String>))
        ensures
            tuple == (self.path, Some(self.content)),
    {
        (self.path, Some(self.content))
    }
}

/// A set of compiled glob patterns.
#[verifier::external_type_specification]
#[verifier::external_body]
pub struct ExAny<'t>(wax::Any<'t>);

/// Why glob patterns do not compile.
#[verifier::external_type_specification]
#[verifier::external_body]
pub struct ExBuildError(wax::BuildError);

pub open spec fn str_views(texts: Seq<&str>) -> Seq<Seq<char>> {
    texts.map_values(|text: &str| text@)
}

pub open spec fn string_views(texts: Seq<String>) -> Seq<Seq<char>> {
    texts.map_values(|text: String| text@)
}

/// The paths that a set of compiled glob patterns holds: those that match one of the patterns.
pub uninterp spec fn matched_paths(globs: wax::Any<'_>) -> Set<Seq<char>>;

/// The patterns that a set of compiled glob patterns was made from.
pub uninterp spec fn glob_patterns(globs: wax::Any<'_>) -> Seq<Seq<char>>;

/// Whether no path but the empty one is among `paths`.
pub open spec fn holds_no_file(paths: Set<Seq<char>>) -> bool {
    forall|path: Seq<char>| #[trigger] paths.contains(path) ==> path.len() == 0
}

/// `wax::any`: compiles patterns to a set that matches a path where one of them does.  No patterns
/// at all compile, to a set that matches no path but the empty one; whether others compile is up to
/// the syntax of globs and to a limit on the size of the compiled program, and nothing is claimed
/// about that.  Nor is it about which paths a set holds otherwise: case and separators count
/// differently from platform to platform.  The call panics where groups nest deeper than the
/// regular expressions that it builds may, and where a count of a repetition is above the largest
/// `u32` or the size of a repeated text above the largest `usize`.  What is in a repetition of more
/// than one thing is looked at up to four times where the repetition is looked at once, so that the
/// call takes longer and longer the more of them stand one in another, and in the end does not come
/// back.  Moderate patterns do not make it panic, and bound how often that happens.
#[verifier::external_body]
fn compile_globs<'t>(patterns: Vec<&'t str>) -> (globs: Result<wax::Any<'t>, wax::BuildError>)
    requires
        are_moderate(str_views(patterns@)),
    ensures
        patterns@.len() == 0 ==> globs is Ok,
        globs is Ok ==> glob_patterns(globs->Ok_0) == str_views(patterns@),
        globs is Ok && patterns@.len() == 0 ==> holds_no_file(matched_paths(globs->Ok_0)),
{
    wax::any(patterns)
}

/// `wax::Pattern::is_match`: whether a path matches one of the patterns, that is, whether the set
/// holds it.  What counts on a platform is compiled into the set; the answer depends on the set and
/// the path alone.
#[verifier::external_body]
fn is_match(globs: &wax::Any<'_>, path: &str) -> (matched: bool)
    ensures
        matched == matched_paths(*globs).contains(path@),
{
    wax::Pattern::is_match(globs, path)
}

/// The bytes of a UTF-8 text without its byte order mark.
pub open spec fn without_bom(content: Seq<u8>) -> Seq<u8> {
    if content.len() >= 3 && content[0] == 0xEF && content[1] == 0xBB && content[2] == 0xBF {
        content.skip(3)
    } else {
        content
    }
}

/// Whether a text is what UTF-8 bytes decode to.  Bytes that are not UTF-8 are an error, whatever
/// the text is.
pub open spec fn is_utf8_decoding(content: Seq<u8>, text: Seq<char>, has_error: bool) -> bool {
    let body = without_bom(content);
    &&& has_error == !valid_utf8(body)
    &&& !has_error ==> text == decode_utf8(body)
}

/// The name of the encoding that `Encoding::for_label` finds for a label; nothing where no encoding
/// has the label.
pub uninterp spec fn labelled_encoding(label: Seq<char>) -> Option<Seq<char>>;

/// What `Encoding::decode_with_bom_removal` returns for the encoding of a name: the text, and
/// whether there were bytes that had to be replaced.
pub uninterp spec fn named_decoding(encoding: Seq<char>, content: Seq<u8>) -> (Seq<char>, bool);

/// What bytes decode to in the encoding that has a label.
pub open spec fn labelled_decoding(label: Seq<char>, content: Seq<u8>) -> Option<
    (Seq<char>, bool),
> {
    match labelled_encoding(label) {
        Some(encoding) => Some(named_decoding(encoding, content)),
        None => None,
    }
}

/// A decoded text and whether there was an error.
pub open spec fn decoded_view(decoded: (String, bool)) -> (Seq<char>, bool) {
    (decoded.0@, decoded.1)
}

/// Whether there is a text, and it is what UTF-8 bytes decode to.
pub open spec fn is_some_utf8_decoding(content: Seq<u8>, decoded: Option<(String, bool)>) -> bool {
    match decoded {
        Some((text, has_error)) => is_utf8_decoding(content, text@, has_error),
        None => false,
    }
}

/// `encoding_rs::Encoding::decode_with_bom_removal`, on the encoding that
/// `encoding_rs::Encoding::for_label` finds: which one that is, [`labelled_encoding`] names, and
/// what comes out, [`named_decoding`]; no two encodings have the same name.  Under the label
/// `utf-8` it is the UTF-8 text.  The buffer for the text has up to three bytes for each byte, and
/// a few more, and may be doubled; under the bound on the length a vector can have that size.
#[verifier::external_body]
fn decode_labelled(label: &str, content: &[u8]) -> (decoded: Option<(String, bool)>)
    requires
        content@.len() <= usize::MAX / 16,
    ensures
        (decoded is Some) == (labelled_encoding(label@) is Some),
        decoded is Some ==> decoded_view(decoded->0) == named_decoding(
            labelled_encoding(label@)->0,
            content@,
        ),
        label@ == "utf-8"@ ==> is_some_utf8_decoding(content@, decoded),
{
    let (text, has_error) = encoding_rs::Encoding::for_label(label.as_bytes())?
        .decode_with_bom_removal(content);
    Some((text.into_owned(), has_error))
}

/// `encoding_rs::Encoding::decode_with_bom_removal`, on `encoding_rs::UTF_8`, whose name is
/// `UTF-8`: the UTF-8 text, and whether there were bytes that are not UTF-8.  The buffer for the
/// text has up to three bytes for each byte, and a few more, and may be doubled; under the bound on
/// the length a vector can have that size.
#[verifier::external_body]
fn decode_as_utf8(content: &[u8]) -> (decoded: (String, bool))
    requires
        content@.len() <= usize::MAX / 16,
    ensures
        decoded_view(decoded) == named_decoding("UTF-8"@, content@),
        is_utf8_decoding(content@, decoded.0@, decoded.1),
{
    let (text, has_error) = encoding_rs::UTF_8.decode_with_bom_removal(content);
    (text.into_owned(), has_error)
}

/// The text of a file, where it could be decoded without replacing anything.
pub fn text_without_errors(decoded: (String, bool)) -> (text: Option<String>)
    ensures
        match text {
            Some(text) => !decoded.1 && text@ == decoded.0@,
            None => decoded.1,
        },
{
    let (content, has_error) = decoded;
    if has_error {
        return None;
    }
    Some(content)
}

/// The text of a UTF-8 file; there is none where it is not UTF-8.
pub open spec fn utf8_text(content: Seq<u8>) -> Option<Seq<char>> {
    let body = without_bom(content);
    if valid_utf8(body) {
        Some(decode_utf8(body))
    } else {
        None
    }
}

/// Whether `text` is what a file holds under an encoding label: a label that no encoding has
/// stands for UTF-8, as `utf-8` does, and a file that cannot be decoded holds no text.
pub open spec fn is_file_text(
    content: Seq<u8>,
    encoding: Seq<char>,
    text: Option<Seq<char>>,
) -> bool {
    &&& encoding == "utf-8"@ ==> text == utf8_text(content)
    &&& text == match labelled_decoding(encoding, content) {
        Some((decoded, has_error)) => if has_error {
            None
        } else {
            Some(decoded)
        },
        None => utf8_text(content),
    }
}

/// The text of an optional string.
pub open spec fn opt_text(text: Option<String>) -> Option<Seq<char>> {
    match text {
        Some(text) => Some(text@),
        None => None,
    }
}

/// The text of a file.  `content` is what was read; nothing, where the file could not be read.
pub fn read_file_with_encoding(content: Option<&Vec<u8>>, encoding: &str) -> (text: Option<String>)
    requires
        content matches Some(content) ==> content@.len() <= usize::MAX / 16,
    ensures
        match content {
            Some(content) => is_file_text(content@, encoding@, opt_text(text)),
            None => text is None,
        },
{
    let content = match content {
        Some(content) => content,
        None => return None,
    };
    let decoded = match decode_labelled(encoding, content.as_slice()) {
        Some(decoded) => decoded,
        None => decode_as_utf8(content.as_slice()),
    };
    text_without_errors(decoded)
}

/// The encoding label that counts where `encoding` is what was asked for.
pub open spec fn effective_encoding(encoding: Option<&str>) -> Seq<char> {
    match encoding {
        Some(encoding) => encoding@,
        None => "utf-8"@,
    }
}

pub fn get_effective_encoding<'t>(encoding: Option<&'t str>) -> (label: &'t str)
    ensures
        label@ == effective_encoding(encoding),
{
    match encoding {
        Some(encoding) => encoding,
        None => "utf-8",
    }
}

/// Which list of patterns does not compile, and why.
#[derive(Debug)]
pub enum InvalidPattern<E> {
    Include(E),
    Exclude(E),
}

/// The two sets of patterns, where both compiled; the included ones are looked at first.
pub fn both_compiled<T, E>(include_set: Result<T, E>, exclude_set: Result<T, E>) -> (sets: Result<
    (T, T),
    InvalidPattern<E>,
>)
    ensures
        match (include_set, exclude_set) {
            (Err(e), _) => sets == Err::<(T, T), InvalidPattern<E>>(InvalidPattern::Include(e)),
            (Ok(_), Err(e)) => sets == Err::<(T, T), InvalidPattern<E>>(InvalidPattern::Exclude(e)),
            (
                Ok(included),
                Ok(excluded),
            ) => sets == Ok::<(T, T), InvalidPattern<E>>((included, excluded)),
        },
{
    let include_set = match include_set {
        Ok(include_set) => include_set,
        Err(e) => return Err(InvalidPattern::Include(e)),
    };
    match exclude_set {
        Ok(exclude_set) => Ok((include_set, exclude_set)),
        Err(e) => Err(InvalidPattern::Exclude(e)),
    }
}

/// Whether a file is loaded: it is in none of the excluded directories, matches no excluded
/// pattern, and matches an included one.
pub fn is_wanted(in_exclude_dir: &Vec<bool>, excluded: bool, included: bool) -> (res: bool)
    ensures
        res == (!in_exclude_dir@.contains(true) && !excluded && included),
{
    let mut i: usize = 0;
    while i < in_exclude_dir.len()
        invariant
            i <= in_exclude_dir@.len(),
            forall|j: int| 0 <= j < i ==> !in_exclude_dir@[j],
        decreases in_exclude_dir@.len() - i,
    {
        if in_exclude_dir[i] {
            assert(in_exclude_dir@[i as int]);
            return false;
        }
        i += 1;
    }
    !excluded && included
}

/// Loads the files of a workspace, one by one.
pub struct WorkspaceLoader<'t> {
    include_set: wax::Any<'t>,
    exclude_set: wax::Any<'t>,
    encoding: &'t str,
    files: Vec<LuaFileInfo>,
}

/// The texts of `patterns`, in order.
fn pattern_texts<'t>(patterns: &'t Vec<String>) -> (texts: Vec<&'t str>)
    ensures
        texts@.len() == patterns@.len(),
        str_views(texts@) == string_views(patterns@),
{
    let mut texts: Vec<&'t str> = Vec::new();
    let mut i: usize = 0;
    while i < patterns.len()
        invariant
            i <= patterns@.len(),
            texts@.len() == i,
            forall|j: int| 0 <= j < i ==> (#[trigger] texts@[j])@ == patterns@[j]@,
        decreases patterns@.len() - i,
    {
        texts.push(patterns[i].as_str());
        i += 1;
    }
    assert(str_views(texts@) =~= string_views(patterns@));
    texts
}

impl<'t> WorkspaceLoader<'t> {
    /// The label of the encoding that files are in.
    pub closed spec fn encoding(self) -> Seq<char> {
        self.encoding@
    }

    /// The paths that match an included pattern.
    pub closed spec fn included_paths(self) -> Set<Seq<char>> {
        matched_paths(self.include_set)
    }

    /// The paths that match an excluded pattern.
    pub closed spec fn excluded_paths(self) -> Set<Seq<char>> {
        matched_paths(self.exclude_set)
    }

    pub closed spec fn include_patterns(self) -> Seq<Seq<char>> {
        glob_patterns(self.include_set)
    }

    pub closed spec fn exclude_patterns(self) -> Seq<Seq<char>> {
        glob_patterns(self.exclude_set)
    }

    /// The files that are loaded so far.
    pub closed spec fn files(self) -> Seq<LuaFileInfo> {
        self.files@
    }

    /// A loader for the files that match one of `include_pattern` and none of `exclude_pattern`.
    pub fn new(
        include_pattern: &'t Vec<String>,
        exclude_pattern: &'t Vec<String>,
        encoding: Option<&'t str>,
    ) -> (loader: Result<WorkspaceLoader<'t>, InvalidPattern<wax::BuildError>>)
        requires
            are_moderate(string_views(include_pattern@)),
            are_moderate(string_views(exclude_pattern@)),
        ensures
            include_pattern@.len() == 0 && exclude_pattern@.len() == 0 ==> loader is Ok,
            include_pattern@.len() == 0 && loader is Err ==> loader->Err_0 is Exclude,
            exclude_pattern@.len() == 0 && loader is Err ==> loader->Err_0 is Include,
            loader matches Ok(loader) ==> {
                &&& loader.include_patterns() == string_views(include_pattern@)
                &&& loader.exclude_patterns() == string_views(exclude_pattern@)
                &&& include_pattern@.len() == 0 ==> holds_no_file(loader.included_paths())
                &&& exclude_pattern@.len() == 0 ==> holds_no_file(loader.excluded_paths())
                &&& loader.encoding() == effective_encoding(encoding)
                &&& loader.files() == Seq::<LuaFileInfo>::empty()
            },
    {
        let include_set = compile_globs(pattern_texts(include_pattern));
        let exclude_set = compile_globs(pattern_texts(exclude_pattern));
        match both_compiled(include_set, exclude_set) {
            Ok((include_set, exclude_set)) => Ok(
                WorkspaceLoader {
                    include_set,
                    exclude_set,
                    encoding: get_effective_encoding(encoding),
                    files: Vec::new(),
                },
            ),
            Err(e) => Err(e),
        }
    }

    /// Whether a file is to be loaded: it is in none of the excluded directories, and its path
    /// matches no excluded pattern and an included one.  `in_exclude_dir` tells for each excluded
    /// directory whether the file is in it; `relative_path` is its path below the root.
    pub fn wants(&self, in_exclude_dir: &Vec<bool>, relative_path: &str) -> (res: bool)
        ensures
            res == (!in_exclude_dir@.contains(true) && !self.excluded_paths().contains(
                relative_path@,
            ) && self.included_paths().contains(relative_path@)),
    {
        let excluded = is_match(&self.exclude_set, relative_path);
        let included = is_match(&self.include_set, relative_path);
        is_wanted(in_exclude_dir, excluded, included)
    }

    /// Loads a file and tells whether it is loaded.  One that could not be read or decoded is left
    /// out.
    pub fn add_file(&mut self, path: String, content: Option<&Vec<u8>>) -> (loaded: bool)
        requires
            content matches Some(content) ==> content@.len() <= usize::MAX / 16,
        ensures
            final(self).encoding() == old(self).encoding(),
            final(self).include_patterns() == old(self).include_patterns(),
            final(self).exclude_patterns() == old(self).exclude_patterns(),
            final(self).included_paths() == old(self).included_paths(),
            final(self).excluded_paths() == old(self).excluded_paths(),
            content is None ==> !loaded && final(self).files() == old(self).files(),
            content matches Some(content) ==> exists|text: Option<String>| #[trigger]
                is_file_text(content@, old(self).encoding(), opt_text(text)) && loaded == (text
                    is Some) && final(self).files() == match text {
                    Some(text) => old(self).files().push(LuaFileInfo { path, content: text }),
                    None => old(self).files(),
                },
    {
        let text = read_file_with_encoding(content, self.encoding);
        assert(content matches Some(content) ==> is_file_text(
            content@,
            old(self).encoding(),
            opt_text(text),
        ));
        match text {
            Some(text) => {
                self.files.push(LuaFileInfo { path, content: text });
                true
            },
            None => false,
        }
    }

    pub fn into_files(self) -> (files: Vec<LuaFileInfo>)
        ensures
            files@ == self.files(),
    {
        self.files
    }
}

/// The files that are loaded: none, where there is no loader because a pattern is invalid.
pub fn loaded_files<'t, E>(loader: Result<WorkspaceLoader<'t>, E>) -> (files: Vec<LuaFileInfo>)
    ensures
        match loader {
            Ok(loader) => files@ == loader.files(),
            Err(_) => files@.len() == 0,
        },
{
    match loader {
        Ok(loader) => loader.into_files(),
        Err(_) => Vec::new(),
    }
}

} // verus!
