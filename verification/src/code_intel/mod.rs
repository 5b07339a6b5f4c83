//! Code intelligence: language detection, symbol extraction, git history and
//! the bookkeeping of a scan.

pub mod git;
pub mod languages;
pub mod parser;
pub mod syntax;

use vstd::prelude::*;
use vstd::string::StringSliceAdditionalSpecFns;
use crate::code_intel::languages::{grammar_of, language_name_of, LanguageEntry, LanguageRegistry};
use crate::code_intel::parser::{file_symbols, parse_ok, source_tree, symbols_view, CodeParser, Symbol};
use crate::error::{error_text, ContextForgeError};
use crate::text::{string_of, text_is};

verus! {

// ---------------------------------------------------------------------------
// Content hashes
// ---------------------------------------------------------------------------

/// The SHA-256 digest of `data`, as computed by the `sha2` crate.
pub uninterp spec fn sha256_of(data: Seq<u8>) -> Seq<u8>;

/// `sha2::Sha256::digest`: returns the 32-byte SHA-256 digest of `data`
/// (the digest itself is named, not computed, here).
#[verifier::external_body]
fn sha256_digest(data: &[u8]) -> (res: Vec<u8>)
    ensures
        res@ == sha256_of(data@),
        res@.len() == 32,
{
    <sha2::Sha256 as sha2::Digest>::digest(data).to_vec()
}

/// The lowercase hexadecimal digit of a value below 16.
pub open spec fn hex_digit(v: u8) -> char {
    if v < 10 {
        (48 + v) as char
    } else {
        (97 + (v - 10)) as char
    }
}

/// The lowercase hexadecimal text of a byte string, two digits per byte.
pub open spec fn hex_lower(b: Seq<u8>) -> Seq<char>
    decreases b.len(),
{
    if b.len() == 0 {
        Seq::empty()
    } else {
        hex_lower(b.drop_last()) + seq![hex_digit(b.last() / 16), hex_digit(b.last() % 16)]
    }
}

fn hex_digit_of(v: u8) -> (res: char)
    requires
        v < 16,
    ensures
        res == hex_digit(v),
{
    if v < 10 {
        (48u8 + v) as char
    } else {
        (97u8 + (v - 10)) as char
    }
}

/// The lowercase hexadecimal text of `bytes` (see [`hex_lower`]).
pub fn to_hex_lower(bytes: &[u8]) -> (res: String)
    ensures
        res@ == hex_lower(bytes@),
{
    let mut out = String::new();
    for i in 0..bytes.len()
        invariant
            out@ == hex_lower(bytes@.take(i as int)),
    {
        let b = bytes[i];
        out.push(hex_digit_of(b / 16));
        out.push(hex_digit_of(b % 16));
        proof {
            assert(bytes@.take(i + 1).drop_last() =~= bytes@.take(i as int));
            assert(out@ =~= hex_lower(bytes@.take(i as int)) + seq![hex_digit(b / 16), hex_digit(b % 16)]);
        }
    }
    proof {
        assert(bytes@.take(bytes@.len() as int) =~= bytes@);
    }
    out
}

/// The SHA-256 hex digest of a text: the lowercase hex of the digest of its UTF-8 bytes.
pub open spec fn sha256_hex_of(content: Seq<char>) -> Seq<char> {
    hex_lower(sha256_of(vstd::utf8::encode_utf8(content)))
}

/// Compute SHA-256 hex digest of a string.
pub fn sha256_hex(content: &str) -> (res: String)
    ensures
        res@ == sha256_hex_of(content@),
        res@.len() == 64,
{
    let digest = sha256_digest(content.as_bytes());
    proof {
        lemma_hex_lower_len(digest@);
    }
    to_hex_lower(digest.as_slice())
}

proof fn lemma_hex_lower_len(b: Seq<u8>)
    ensures
        hex_lower(b).len() == 2 * b.len(),
    decreases b.len(),
{
    if b.len() > 0 {
        lemma_hex_lower_len(b.drop_last());
    }
}

proof fn lemma_hex_digit_injective(x: u8, y: u8)
    requires
        x < 16,
        y < 16,
        hex_digit(x) == hex_digit(y),
    ensures
        x == y,
{
}

/// Distinct byte strings have distinct hexadecimal texts.
pub proof fn lemma_hex_lower_injective(a: Seq<u8>, b: Seq<u8>)
    requires
        hex_lower(a) == hex_lower(b),
    ensures
        a == b,
    decreases a.len(),
{
    lemma_hex_lower_len(a);
    lemma_hex_lower_len(b);
    if a.len() > 0 {
        let ha = hex_lower(a.drop_last());
        let hb = hex_lower(b.drop_last());
        lemma_hex_lower_len(a.drop_last());
        lemma_hex_lower_len(b.drop_last());
        assert(hex_lower(a)[ha.len() as int] == hex_digit(a.last() / 16));
        assert(hex_lower(b)[hb.len() as int] == hex_digit(b.last() / 16));
        assert(hex_lower(a)[ha.len() as int + 1] == hex_digit(a.last() % 16));
        assert(hex_lower(b)[hb.len() as int + 1] == hex_digit(b.last() % 16));
        lemma_hex_digit_injective(a.last() / 16, b.last() / 16);
        lemma_hex_digit_injective(a.last() % 16, b.last() % 16);
        assert(ha =~= hex_lower(a).take(ha.len() as int));
        assert(hb =~= hex_lower(b).take(hb.len() as int));
        lemma_hex_lower_injective(a.drop_last(), b.drop_last());
        assert(a.last() == b.last());
        assert(a =~= a.drop_last().push(a.last()));
        assert(b =~= b.drop_last().push(b.last()));
    }
}

/// Two texts get the same content hash exactly when their SHA-256 digests are
/// equal: the hex text loses nothing of the digest.
pub proof fn lemma_sha256_hex_same_iff_same_digest(x: Seq<char>, y: Seq<char>)
    ensures
        (sha256_hex_of(x) == sha256_hex_of(y)) <==> (sha256_of(vstd::utf8::encode_utf8(x))
            == sha256_of(vstd::utf8::encode_utf8(y))),
{
    if sha256_hex_of(x) == sha256_hex_of(y) {
        lemma_hex_lower_injective(
            sha256_of(vstd::utf8::encode_utf8(x)),
            sha256_of(vstd::utf8::encode_utf8(y)),
        );
    }
}

// ---------------------------------------------------------------------------
// Which files a scan visits
// ---------------------------------------------------------------------------

/// The directory names listed as always skipped.
pub open spec fn is_skip_dir_name(name: Seq<char>) -> bool {
    ||| name == ".git"@
    ||| name == "node_modules"@
    ||| name == "target"@
    ||| name == "vendor"@
    ||| name == "__pycache__"@
    ||| name == ".venv"@
    ||| name == "venv"@
    ||| name == "dist"@
    ||| name == "build"@
    ||| name == ".next"@
}

/// Whether the walk enters a directory entry of this name: it does unless the
/// name is one of the directories always skipped.
pub open spec fn enters_dir(name: Seq<char>) -> bool {
    !is_skip_dir_name(name)
}

/// Whether the walk keeps an entry: every non-directory, and the directories it enters.
pub open spec fn walk_keeps(is_dir: bool, name: Seq<char>) -> bool {
    is_dir ==> enters_dir(name)
}

fn is_skip_dir(name: &str) -> (res: bool)
    ensures
        res == is_skip_dir_name(name@),
{
    text_is(name, ".git") || text_is(name, "node_modules") || text_is(name, "target") || text_is(
        name,
        "vendor",
    ) || text_is(name, "__pycache__") || text_is(name, ".venv") || text_is(name, "venv")
        || text_is(name, "dist") || text_is(name, "build") || text_is(name, ".next")
}

/// Whether the directory walk keeps the entry of this name (see [`walk_keeps`]).
pub fn walk_keeps_entry(is_dir: bool, name: &str) -> (res: bool)
    ensures
        res == walk_keeps(is_dir, name@),
{
    !is_dir || !is_skip_dir(name)
}

/// Whether `pattern` is a glob pattern that the `glob` crate accepts.
pub uninterp spec fn glob_pattern_valid(pattern: Seq<char>) -> bool;

/// Whether the `glob` crate's compiled `pattern` matches `path`.
pub uninterp spec fn glob_pattern_matches(pattern: Seq<char>, path: Seq<char>) -> bool;

/// `glob::Pattern::new(pattern).is_ok()`: whether the pattern compiles (named, not computed).
#[verifier::external_body]
fn glob_is_valid(pattern: &str) -> (res: bool)
    ensures
        res == glob_pattern_valid(pattern@),
{
    glob::Pattern::new(pattern).is_ok()
}

/// `glob::Pattern::matches` on the pattern compiled from `pattern` (named, not computed).
#[verifier::external_body]
fn glob_matches(pattern: &str, path: &str) -> (res: bool)
    requires
        glob_pattern_valid(pattern@),
    ensures
        res == glob_pattern_matches(pattern@, path@),
{
    match glob::Pattern::new(pattern) {
        Ok(p) => p.matches(path),
        Err(_) => false,
    }
}

/// Whether a file is scanned: its extension is supported and, when any of the
/// patterns is a valid glob, one valid pattern matches its path.
pub open spec fn file_selected(ext: Seq<char>, path: Seq<char>, patterns: Seq<Seq<char>>) -> bool {
    &&& language_name_of(ext) is Some
    &&& ((forall|i: int| 0 <= i < patterns.len() ==> !glob_pattern_valid(#[trigger] patterns[i]))
        || (exists|i: int|
        0 <= i < patterns.len() && glob_pattern_valid(#[trigger] patterns[i])
            && glob_pattern_matches(patterns[i], path)))
}

/// Whether a file with this extension and path is scanned (see [`file_selected`]).
pub fn select_file(ext: &str, path: &str, patterns: &Vec<String>) -> (res: bool)
    ensures
        res == file_selected(ext@, path@, patterns.deep_view()),
{
    if !LanguageRegistry::is_supported(ext) {
        return false;
    }
    let ghost ps = patterns.deep_view();
    let mut any_valid = false;
    for i in 0..patterns.len()
        invariant
            ps == patterns.deep_view(),
            language_name_of(ext@) is Some,
            any_valid == exists|k: int| 0 <= k < i && glob_pattern_valid(#[trigger] ps[k]),
            forall|k: int|
                0 <= k < i && glob_pattern_valid(#[trigger] ps[k]) ==> !glob_pattern_matches(
                    ps[k],
                    path@,
                ),
    {
        let p = patterns[i].as_str();
        assert(ps[i as int] == p@);
        if glob_is_valid(p) {
            any_valid = true;
            if glob_matches(p, path) {
                assert(glob_pattern_valid(ps[i as int]) && glob_pattern_matches(ps[i as int], path@));
                return true;
            }
        }
    }
    !any_valid
}

/// Which files a scan takes: never a file of an unsupported language; a file
/// of a supported language when none of the patterns is a valid glob, and
/// otherwise exactly when some valid pattern matches its path. One matching
/// pattern is enough, whatever the other patterns are.
pub proof fn lemma_file_selection(ext: Seq<char>, path: Seq<char>, patterns: Seq<Seq<char>>)
    ensures
        language_name_of(ext) is None ==> !file_selected(ext, path, patterns),
        forall|i: int|
            0 <= i < patterns.len() && glob_pattern_valid(#[trigger] patterns[i])
                && glob_pattern_matches(patterns[i], path) ==> (file_selected(ext, path, patterns)
                <==> language_name_of(ext) is Some),
        (forall|i: int| 0 <= i < patterns.len() ==> !glob_pattern_valid(#[trigger] patterns[i]))
            ==> (file_selected(ext, path, patterns) <==> language_name_of(ext) is Some),
        forall|i: int|
            0 <= i < patterns.len() && glob_pattern_valid(#[trigger] patterns[i]) ==> ((forall|j: int|
                0 <= j < patterns.len() && glob_pattern_valid(#[trigger] patterns[j])
                    ==> !glob_pattern_matches(patterns[j], path)) ==> !file_selected(
                ext,
                path,
                patterns,
            )),
{
}

// ---------------------------------------------------------------------------
// Scanning one file
// ---------------------------------------------------------------------------

/// Result of scanning a single file.
#[derive(Debug)]
pub struct ScanFileResult {
    pub scanned: bool,
    pub symbols: usize,
    pub language: Option<String>,
}

/// What to do with a file whose content has been read.
pub enum FileScanDecision {
    /// Its content hash equals the one stored at the last scan: nothing to do.
    Unchanged,
    /// Its extension maps to no supported language.
    Unsupported,
    /// Parse it with this language, and store its symbols under this hash.
    Parse { hash: String, language: LanguageEntry },
}

/// Whether a file's content is unchanged since the scan that stored the hash
/// `stored`: a hash was stored, and it is the hash of the content.
pub open spec fn unchanged_since(content: Seq<char>, stored: Option<Seq<char>>) -> bool {
    stored matches Some(h) && h == sha256_hex_of(content)
}

/// The hash stored for a file, as a character sequence.
pub open spec fn stored_view(stored: Option<&str>) -> Option<Seq<char>> {
    match stored {
        Some(h) => Some(h@),
        None => None,
    }
}

/// Decide how to scan a file from its content, the hash stored for it at the
/// last scan (if any) and its extension: skip it when the content hash is
/// unchanged, skip it when the language is unsupported, else parse it.
pub fn decide_file_scan(content: &str, stored_hash: Option<&str>, ext: &str) -> (res:
    FileScanDecision)
    ensures
        match res {
            FileScanDecision::Unchanged => unchanged_since(content@, stored_view(stored_hash)),
            FileScanDecision::Unsupported => !unchanged_since(content@, stored_view(stored_hash))
                && language_name_of(ext@) is None,
            FileScanDecision::Parse { hash, language } => {
                &&& !unchanged_since(content@, stored_view(stored_hash))
                &&& hash@ == sha256_hex_of(content@)
                &&& language_name_of(ext@) == Some(language.name@)
                &&& grammar_of(ext@) == Some(language.language)
            },
        },
{
    let hash = sha256_hex(content);
    match stored_hash {
        Some(h) => {
            if text_is(h, hash.as_str()) {
                return FileScanDecision::Unchanged;
            }
        },
        None => {},
    }
    match LanguageRegistry::get(ext) {
        Some(language) => FileScanDecision::Parse { hash, language },
        None => FileScanDecision::Unsupported,
    }
}

/// Scans are incremental: a scan that parses a file stores the hash of the
/// content it parsed, and a later scan finds the file unchanged (and skips it)
/// exactly when the current content has the same SHA-256 digest. In
/// particular, scanning the same content again is always skipped.
pub proof fn lemma_rescan_unchanged_iff_same_digest(parsed: Seq<char>, current: Seq<char>)
    ensures
        unchanged_since(current, Some(sha256_hex_of(parsed))) <==> (sha256_of(
            vstd::utf8::encode_utf8(current),
        ) == sha256_of(vstd::utf8::encode_utf8(parsed))),
        unchanged_since(parsed, Some(sha256_hex_of(parsed))),
{
    lemma_sha256_hex_same_iff_same_digest(current, parsed);
}

/// The outcome of scanning a file's content.
pub enum ContentScan {
    /// The content hash equals the stored one.
    Unchanged,
    /// The extension maps to no supported language.
    Unsupported,
    /// The content was parsed: its hash, its language's name and its symbols.
    Parsed { hash: String, language: String, symbols: Vec<Symbol> },
}

/// Orchestrates code scanning: deciding which file contents to parse, and parsing them.
pub struct CodeScanner {
    parser: CodeParser,
}

impl CodeScanner {
    pub fn new() -> Self {
        CodeScanner { parser: CodeParser::new() }
    }

    /// Scan a file's content, given the hash stored for it at the last scan and
    /// its extension: unchanged and unsupported files are left alone; others are
    /// parsed with the grammar of their language (see [`decide_file_scan`]).
    pub fn scan_content(&mut self, content: &str, stored_hash: Option<&str>, ext: &str) -> (res:
        Result<ContentScan, ContextForgeError>)
        ensures
            match res {
                Ok(ContentScan::Unchanged) => unchanged_since(content@, stored_view(stored_hash)),
                Ok(ContentScan::Unsupported) => !unchanged_since(content@, stored_view(stored_hash))
                    && language_name_of(ext@) is None,
                Ok(ContentScan::Parsed { hash, language, symbols }) => {
                    &&& !unchanged_since(content@, stored_view(stored_hash))
                    &&& hash@ == sha256_hex_of(content@)
                    &&& language_name_of(ext@) == Some(language@)
                    &&& grammar_of(ext@) matches Some(g) && parse_ok(g, content.spec_bytes())
                        && symbols_view(symbols@) == file_symbols(
                        source_tree(g, content.spec_bytes()),
                        content.spec_bytes(),
                        language@,
                    )
                },
                Err(e) => e is Parse && !unchanged_since(content@, stored_view(stored_hash))
                    && (grammar_of(ext@) matches Some(g) && !parse_ok(g, content.spec_bytes())),
            },
    {
        match decide_file_scan(content, stored_hash, ext) {
            FileScanDecision::Unchanged => Ok(ContentScan::Unchanged),
            FileScanDecision::Unsupported => Ok(ContentScan::Unsupported),
            FileScanDecision::Parse { hash, language } => {
                let name = language.name;
                let symbols = self.parser.parse(content, language.language, name)?;
                Ok(ContentScan::Parsed { hash, language: string_of(name), symbols })
            },
        }
    }
}

impl ScanFileResult {
    /// A file left as it was.
    pub fn skipped() -> (res: Self)
        ensures
            !res.scanned,
            res.symbols == 0,
            res.language is None,
    {
        ScanFileResult { scanned: false, symbols: 0, language: None }
    }

    /// A file parsed into `symbols` symbols of the named language.
    pub fn parsed(symbols: usize, language: &str) -> (res: Self)
        ensures
            res.scanned,
            res.symbols == symbols,
            res.language.deep_view() == Some(language@),
    {
        ScanFileResult { scanned: true, symbols, language: Some(string_of(language)) }
    }
}

// ---------------------------------------------------------------------------
// The summary of a scan
// ---------------------------------------------------------------------------

/// The number of scanned files of one language.
#[derive(Debug, Clone)]
pub struct LanguageCount {
    pub name: String,
    pub files: usize,
}

/// Summary of a scan operation.
#[derive(Debug, Clone)]
pub struct ScanSummary {
    pub files_scanned: usize,
    pub files_skipped: usize,
    pub symbols_found: usize,
    pub commits_analyzed: usize,
    pub errors: Vec<String>,
    /// Scanned files per language, one entry per language name.
    pub languages: Vec<LanguageCount>,
}

/// The number of files counted for language `name`.
pub open spec fn files_of_language(ls: Seq<LanguageCount>, name: Seq<char>) -> int
    decreases ls.len(),
{
    if ls.len() == 0 {
        0
    } else {
        files_of_language(ls.drop_last(), name) + if ls.last().name@ == name {
            ls.last().files as int
        } else {
            0
        }
    }
}

/// The number of files counted over all languages.
pub open spec fn files_of_all_languages(ls: Seq<LanguageCount>) -> int
    decreases ls.len(),
{
    if ls.len() == 0 {
        0
    } else {
        files_of_all_languages(ls.drop_last()) + ls.last().files
    }
}

/// The files a summary has accounted for: scanned, skipped, or failed.
pub open spec fn files_processed(s: ScanSummary) -> int {
    s.files_scanned + s.files_skipped + s.errors@.len()
}

impl ScanSummary {
    /// The language list's invariant: one entry per language, each counting at
    /// least one file.
    pub open spec fn languages_wf(&self) -> bool {
        &&& forall|i: int, j: int|
            0 <= i < j < self.languages@.len() ==> #[trigger] self.languages@[i].name@
                != #[trigger] self.languages@[j].name@
        &&& forall|i: int| 0 <= i < self.languages@.len() ==> #[trigger] self.languages@[i].files > 0
    }

    /// The summary's invariant: one entry per language, each counting at least
    /// one file, and every scanned file counted under its language.
    pub open spec fn wf(&self) -> bool {
        &&& self.languages_wf()
        &&& files_of_all_languages(self.languages@) == self.files_scanned
    }

    /// A summary of nothing yet.
    pub fn new() -> (res: Self)
        ensures
            res.wf(),
            res.files_scanned == 0,
            res.files_skipped == 0,
            res.symbols_found == 0,
            res.commits_analyzed == 0,
            res.errors@.len() == 0,
            res.languages@.len() == 0,
    {
        ScanSummary {
            files_scanned: 0,
            files_skipped: 0,
            symbols_found: 0,
            commits_analyzed: 0,
            errors: Vec::new(),
            languages: Vec::new(),
        }
    }

    /// Counts one more scanned file of language `name`.
    fn count_language(&mut self, name: String)
        requires
            old(self).languages_wf(),
            files_of_all_languages(old(self).languages@) + 1 == old(self).files_scanned,
        ensures
            final(self).wf(),
            final(self).files_scanned == old(self).files_scanned,
            files_of_all_languages(final(self).languages@) == files_of_all_languages(
                old(self).languages@,
            ) + 1,
            forall|l: Seq<char>|
                #![trigger files_of_language(final(self).languages@, l)]
                files_of_language(final(self).languages@, l) == files_of_language(
                    old(self).languages@,
                    l,
                ) + if l == name@ {
                    1int
                } else {
                    0int
                },
            final(self).files_skipped == old(self).files_skipped,
            final(self).symbols_found == old(self).symbols_found,
            final(self).commits_analyzed == old(self).commits_analyzed,
            final(self).errors == old(self).errors,
    {
        let ghost old_ls = self.languages@;
        let mut i: usize = 0;
        while i < self.languages.len()
            invariant
                i <= self.languages.len(),
                *self == *old(self),
                self.languages@ == old_ls,
                old(self).languages_wf(),
                files_of_all_languages(old(self).languages@) + 1 == old(self).files_scanned,
                forall|k: int| 0 <= k < i ==> #[trigger] old_ls[k].name@ != name@,
            decreases self.languages.len() - i,
        {
            if text_is(self.languages[i].name.as_str(), name.as_str()) {
                proof {
                    lemma_entry_within_total(old_ls, i as int);
                    lemma_count_update(old_ls, i as int);
                }
                self.languages[i].files = self.languages[i].files + 1;
                proof {
                    assert(self.languages@ =~= old_ls.update(
                        i as int,
                        LanguageCount { name: old_ls[i as int].name, files: (old_ls[i as int].files + 1) as usize },
                    ));
                }
                return ;
            }
            i += 1;
        }
        let ghost entry = LanguageCount { name: name, files: 1 };
        proof {
            assert(old_ls.push(entry).drop_last() =~= old_ls);
            lemma_count_absent(old_ls, name@);
        }
        self.languages.push(LanguageCount { name, files: 1 });
    }
}

/// What came of the git part of a scan.
pub enum GitScanOutcome {
    /// The repository could not be opened.
    OpenFailed(ContextForgeError),
    /// Walking the history failed.
    WalkFailed(ContextForgeError),
    /// This many commits were walked; storing them failed with the error, if any.
    Walked { commits: usize, store_error: Option<ContextForgeError> },
}

/// The summary's fields other than the error list are those of `b`.
pub open spec fn same_counts(a: ScanSummary, b: ScanSummary) -> bool {
    &&& a.files_scanned == b.files_scanned
    &&& a.files_skipped == b.files_skipped
    &&& a.symbols_found == b.symbols_found
    &&& a.commits_analyzed == b.commits_analyzed
    &&& a.languages@ == b.languages@
}

/// `a`'s error list is `b`'s with the line `line` added at the end.
pub open spec fn error_appended(a: ScanSummary, b: ScanSummary, line: Seq<char>) -> bool {
    &&& a.errors@.len() == b.errors@.len() + 1
    &&& a.errors@.drop_last() == b.errors@
    &&& a.errors@.last()@ == line
}

impl ScanSummary {
    /// Records the outcome of scanning the file shown as `path`: a scanned file
    /// adds to the scanned files, to the symbols found and to its language's
    /// count; a skipped file adds to the skipped files; a failure adds the error
    /// line `<path>: <error text>`.
    pub fn record_file(&mut self, outcome: Result<ScanFileResult, ContextForgeError>, path: &str)
        requires
            old(self).wf(),
            match outcome {
                Ok(r) => if r.scanned {
                    &&& r.language is Some
                    &&& old(self).files_scanned < usize::MAX
                    &&& old(self).symbols_found + r.symbols <= usize::MAX
                } else {
                    old(self).files_skipped < usize::MAX
                },
                Err(_) => true,
            },
        ensures
            final(self).wf(),
            files_processed(*final(self)) == files_processed(*old(self)) + 1,
            final(self).commits_analyzed == old(self).commits_analyzed,
            match outcome {
                Ok(r) => if r.scanned {
                    &&& final(self).files_scanned == old(self).files_scanned + 1
                    &&& final(self).files_skipped == old(self).files_skipped
                    &&& final(self).symbols_found == old(self).symbols_found + r.symbols
                    &&& final(self).errors == old(self).errors
                    &&& forall|l: Seq<char>|
                        #![trigger files_of_language(final(self).languages@, l)]
                        files_of_language(final(self).languages@, l) == files_of_language(
                            old(self).languages@,
                            l,
                        ) + if r.language.deep_view() == Some(l) {
                            1int
                        } else {
                            0int
                        }
                } else {
                    &&& final(self).files_skipped == old(self).files_skipped + 1
                    &&& final(self).files_scanned == old(self).files_scanned
                    &&& final(self).symbols_found == old(self).symbols_found
                    &&& final(self).errors == old(self).errors
                    &&& final(self).languages@ == old(self).languages@
                },
                Err(e) => {
                    &&& same_counts(*final(self), *old(self))
                    &&& error_appended(*final(self), *old(self), path@ + ": "@ + error_text(e))
                },
            },
    {
        match outcome {
            Ok(r) => {
                if r.scanned {
                    self.files_scanned = self.files_scanned + 1;
                    self.symbols_found = self.symbols_found + r.symbols;
                    match r.language {
                        Some(lang) => {
                            self.count_language(lang);
                        },
                        None => {},
                    }
                } else {
                    self.files_skipped = self.files_skipped + 1;
                }
            },
            Err(e) => {
                let line = string_of(path).concat(": ").concat(e.message().as_str());
                self.errors.push(line);
                assert(self.errors@.drop_last() =~= old(self).errors@);
            },
        }
    }

    /// Records the outcome of the git part of a scan: the number of commits
    /// walked, or the error line `Git open: <text>`, `Git walk: <text>` or
    /// `Store commits: <text>`.
    pub fn record_git(&mut self, outcome: GitScanOutcome)
        requires
            old(self).wf(),
        ensures
            final(self).wf(),
            final(self).files_scanned == old(self).files_scanned,
            final(self).files_skipped == old(self).files_skipped,
            final(self).symbols_found == old(self).symbols_found,
            final(self).languages@ == old(self).languages@,
            match outcome {
                GitScanOutcome::OpenFailed(e) => final(self).commits_analyzed == old(self).commits_analyzed
                    && error_appended(*final(self), *old(self), "Git open: "@ + error_text(e)),
                GitScanOutcome::WalkFailed(e) => final(self).commits_analyzed == old(self).commits_analyzed
                    && error_appended(*final(self), *old(self), "Git walk: "@ + error_text(e)),
                GitScanOutcome::Walked { commits, store_error } => final(self).commits_analyzed == commits
                    && match store_error {
                    Some(e) => error_appended(*final(self), *old(self), "Store commits: "@ + error_text(e)),
                    None => final(self).errors == old(self).errors,
                },
            },
    {
        match outcome {
            GitScanOutcome::OpenFailed(e) => {
                self.errors.push(string_of("Git open: ").concat(e.message().as_str()));
            },
            GitScanOutcome::WalkFailed(e) => {
                self.errors.push(string_of("Git walk: ").concat(e.message().as_str()));
            },
            GitScanOutcome::Walked { commits, store_error } => {
                self.commits_analyzed = commits;
                match store_error {
                    Some(e) => {
                        self.errors.push(string_of("Store commits: ").concat(e.message().as_str()));
                    },
                    None => {},
                }
            },
        }
        proof {
            assert(self.errors@.drop_last() =~= old(self).errors@ || self.errors == old(self).errors);
        }
    }
}

proof fn lemma_total_nonneg(ls: Seq<LanguageCount>)
    ensures
        files_of_all_languages(ls) >= 0,
    decreases ls.len(),
{
    if ls.len() > 0 {
        lemma_total_nonneg(ls.drop_last());
    }
}

proof fn lemma_entry_within_total(ls: Seq<LanguageCount>, i: int)
    requires
        0 <= i < ls.len(),
    ensures
        ls[i].files <= files_of_all_languages(ls),
    decreases ls.len(),
{
    lemma_total_nonneg(ls.drop_last());
    if i < ls.len() - 1 {
        lemma_entry_within_total(ls.drop_last(), i);
        assert(ls.drop_last()[i] == ls[i]);
    }
}

proof fn lemma_count_absent(ls: Seq<LanguageCount>, name: Seq<char>)
    requires
        forall|k: int| 0 <= k < ls.len() ==> #[trigger] ls[k].name@ != name,
    ensures
        files_of_language(ls, name) == 0,
    decreases ls.len(),
{
    if ls.len() > 0 {
        lemma_count_absent(ls.drop_last(), name);
    }
}

proof fn lemma_count_update(ls: Seq<LanguageCount>, i: int)
    requires
        0 <= i < ls.len(),
        ls[i].files < usize::MAX,
    ensures
        ({
            let ls2 = ls.update(i, LanguageCount { name: ls[i].name, files: (ls[i].files + 1) as usize });
            &&& files_of_all_languages(ls2) == files_of_all_languages(ls) + 1
            &&& forall|l: Seq<char>|
                #![trigger files_of_language(ls2, l)]
                files_of_language(ls2, l) == files_of_language(ls, l) + if l == ls[i].name@ {
                    1int
                } else {
                    0int
                }
        }),
    decreases ls.len(),
{
    let e = LanguageCount { name: ls[i].name, files: (ls[i].files + 1) as usize };
    let ls2 = ls.update(i, e);
    if i < ls.len() - 1 {
        lemma_count_update(ls.drop_last(), i);
        assert(ls2.drop_last() =~= ls.drop_last().update(i, e));
        assert(ls2.last() == ls.last());
        assert forall|l: Seq<char>|
            #![trigger files_of_language(ls2, l)]
            files_of_language(ls2, l) == files_of_language(ls, l) + if l == ls[i].name@ {
                1int
            } else {
                0int
            } by {
            assert(files_of_language(ls.drop_last().update(i, e), l) == files_of_language(
                ls.drop_last(),
                l,
            ) + if l == ls.drop_last()[i].name@ {
                1int
            } else {
                0int
            });
        }
    } else {
        assert(ls2.drop_last() =~= ls.drop_last());
        assert(ls2.last() == e);
    }
}

} // verus!
