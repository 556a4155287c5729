//! The checksum manifest: an ordered list of (expected hash, relative
//! path) records, parsed from one of two plain-text export formats.
//!
//! * Depot-download format (`.txt`): data rows start after the first line
//!   containing the token `Name`; a row's third whitespace-delimited field
//!   is the hash and the fields from the fifth onward, concatenated with no
//!   separator, form the file name.
//! * Manifest-viewer format (`.sha1`): the header ends with a line that is
//!   `;` once trimmed; a row's first field is the hash and the remaining
//!   fields, joined with single spaces and with `*` characters removed,
//!   form the file name.
//!
//! In both formats a row that does not yield a hash and at least one name
//!   token is skipped silently; if the header marker never occurs, every
//!   line is treated as a data row.

use vstd::prelude::*;
use crate::text;

verus! {

/// One expected file state: a hex content hash and a relative path.
#[derive(Debug, Clone)]
pub struct GameFile {
    pub hash: String,
    pub name: String,
}

impl GameFile {
    pub fn new(hash: String, name: String) -> (r: Self)
        ensures
            r.hash@ == hash@,
            r.name@ == name@,
    {
        Self { hash, name }
    }
}

/// The (hash, name) character sequences of a record list, in order.
pub open spec fn files_view(fs: Seq<GameFile>) -> Seq<(Seq<char>, Seq<char>)> {
    fs.map_values(|g: GameFile| (g.hash@, g.name@))
}

/// An ordered checksum manifest. Paths need not be unique: the manifest is
/// the list of expected states, not a bijection.
pub struct Manifest {
    files: Vec<GameFile>,
}

impl View for Manifest {
    type V = Seq<(Seq<char>, Seq<char>)>;

    closed spec fn view(&self) -> Seq<(Seq<char>, Seq<char>)> {
        files_view(self.files@)
    }
}

impl Manifest {
    pub fn new(files: Vec<GameFile>) -> (r: Self)
        ensures
            r@ == files_view(files@),
    {
        Self { files }
    }

    /// The records, in manifest order.
    pub fn files(&self) -> (r: &Vec<GameFile>)
        ensures
            files_view(r@) == self@,
    {
        &self.files
    }
}

/// A depot-download header line: it contains the token `Name`.
pub open spec fn spec_is_depot_header(l: Seq<char>) -> bool {
    text::spec_contains(l, "Name"@)
}

/// A manifest-viewer header terminator: the line is `;` once trimmed.
pub open spec fn spec_is_viewer_header(l: Seq<char>) -> bool {
    text::spec_trim(l) == ";"@
}

/// Index of the first line satisfying `p`, or `lines.len()` if none does.
pub open spec fn spec_first_match(lines: Seq<Seq<char>>, p: spec_fn(Seq<char>) -> bool) -> int
    decreases lines.len(),
{
    if lines.len() == 0 {
        0
    } else if p(lines[0]) {
        0
    } else {
        1 + spec_first_match(lines.skip(1), p)
    }
}

proof fn lemma_first_match(lines: Seq<Seq<char>>, p: spec_fn(Seq<char>) -> bool, i: int)
    requires
        0 <= i <= lines.len(),
        forall|j: int| 0 <= j < i ==> !p(#[trigger] lines[j]),
        i < lines.len() ==> p(lines[i]),
    ensures
        spec_first_match(lines, p) == i,
    decreases lines.len(),
{
    if lines.len() == 0 {
    } else if p(lines[0]) {
        assert(i == 0);
    } else {
        assert(i >= 1);
        lemma_first_match(lines.skip(1), p, i - 1);
    }
}

/// The data rows: everything after the first header line, or every line
/// when no header occurs.
pub open spec fn spec_data_rows(lines: Seq<Seq<char>>, p: spec_fn(Seq<char>) -> bool) -> Seq<
    Seq<char>,
> {
    let i = spec_first_match(lines, p);
    if i < lines.len() {
        lines.skip(i + 1)
    } else {
        lines
    }
}

/// The record a depot-download data row yields, if any.
pub open spec fn spec_depot_row(line: Seq<char>) -> Option<(Seq<char>, Seq<char>)> {
    let parts = text::spec_tokens(line);
    if parts.len() >= 5 {
        Some((parts[2], text::spec_join(parts.skip(4), Seq::empty())))
    } else {
        None
    }
}

/// The record a manifest-viewer data row yields, if any.
pub open spec fn spec_viewer_row(line: Seq<char>) -> Option<(Seq<char>, Seq<char>)> {
    let parts = text::spec_tokens(line);
    if parts.len() >= 2 {
        Some((parts[0], text::spec_strip_stars(text::spec_join(parts.skip(1), seq![' ']))))
    } else {
        None
    }
}

/// The records of a row list, keeping row order and skipping rows that
/// yield none.
pub open spec fn spec_entries(rows: Seq<Seq<char>>, viewer: bool) -> Seq<(Seq<char>, Seq<char>)>
    decreases rows.len(),
{
    if rows.len() == 0 {
        Seq::empty()
    } else {
        let row = if viewer {
            spec_viewer_row(rows[0])
        } else {
            spec_depot_row(rows[0])
        };
        match row {
            Some(e) => seq![e] + spec_entries(rows.skip(1), viewer),
            None => spec_entries(rows.skip(1), viewer),
        }
    }
}

/// The records of a whole depot-download export.
pub open spec fn spec_depot_manifest(s: Seq<char>) -> Seq<(Seq<char>, Seq<char>)> {
    spec_entries(
        spec_data_rows(text::spec_lines(s), |l: Seq<char>| spec_is_depot_header(l)),
        false,
    )
}

/// The records of a whole manifest-viewer export.
pub open spec fn spec_viewer_manifest(s: Seq<char>) -> Seq<(Seq<char>, Seq<char>)> {
    spec_entries(
        spec_data_rows(text::spec_lines(s), |l: Seq<char>| spec_is_viewer_header(l)),
        true,
    )
}

/// Index of the first header line, or `lines.len()` when none is one.
fn first_header(lines: &Vec<Vec<char>>, viewer: bool) -> (r: usize)
    ensures
        r == spec_first_match(
            lines.deep_view(),
            if viewer {
                |l: Seq<char>| spec_is_viewer_header(l)
            } else {
                |l: Seq<char>| spec_is_depot_header(l)
            },
        ),
        r <= lines@.len(),
{
    let ghost dv = lines.deep_view();
    let ghost p = if viewer {
        |l: Seq<char>| spec_is_viewer_header(l)
    } else {
        |l: Seq<char>| spec_is_depot_header(l)
    };
    proof {
        assert(dv.len() == lines@.len());
    }
    let n: usize = lines.len();
    let mut i: usize = 0;
    while i < n
        invariant
            i <= n,
            n == lines@.len(),
            dv == lines.deep_view(),
            p == (if viewer {
                |l: Seq<char>| spec_is_viewer_header(l)
            } else {
                |l: Seq<char>| spec_is_depot_header(l)
            }),
            forall|j: int| 0 <= j < i ==> !p(#[trigger] dv[j]),
        decreases n - i,
    {
        proof {
            assert(dv[i as int] =~= lines@[i as int]@);
        }
        let hit: bool;
        if viewer {
            let t = text::trim_chars(&lines[i]);
            hit = text::eq_str(&t, ";");
        } else {
            hit = text::contains_sub(&lines[i], "Name");
        }
        if hit {
            proof {
                lemma_first_match(dv, p, i as int);
            }
            return i;
        }
        i = i + 1;
    }
    proof {
        lemma_first_match(dv, p, n as int);
    }
    n
}

/// Parses depot-download export text. Parsing is total: malformed rows are
/// skipped, never an error.
pub fn parse_depot_download_manifest(manifest: &str) -> (r: Option<Vec<GameFile>>)
    ensures
        r is Some,
        files_view(r.unwrap()@) == spec_depot_manifest(manifest@),
{
    let cs = text::chars_of(manifest);
    let lines = text::split_lines(&cs);
    let ghost dv = lines.deep_view();
    let start = first_header(&lines, false);
    let from: usize = if start < lines.len() {
        start + 1
    } else {
        0
    };
    proof {
        if start < lines@.len() {
            assert(spec_depot_manifest(manifest@) == spec_entries(dv.skip(from as int), false));
        } else {
            assert(dv.skip(0) =~= dv);
            assert(spec_depot_manifest(manifest@) == spec_entries(dv.skip(from as int), false));
        }
    }
    let mut files: Vec<GameFile> = Vec::new();
    let mut i: usize = from;
    proof {
        assert(files_view(files@) =~= Seq::<(Seq<char>, Seq<char>)>::empty());
        assert(files_view(files@) + spec_entries(dv.skip(i as int), false) =~= spec_entries(
            dv.skip(i as int),
            false,
        ));
    }
    while i < lines.len()
        invariant
            from <= i <= lines@.len(),
            dv == lines.deep_view(),
            spec_entries(dv.skip(from as int), false) == files_view(files@) + spec_entries(
                dv.skip(i as int),
                false,
            ),
        decreases lines@.len() - i,
    {
        proof {
            assert(dv.skip(i as int).skip(1) =~= dv.skip(i + 1));
            assert(dv.skip(i as int)[0] == dv[i as int]);
            assert(dv[i as int] =~= lines@[i as int]@);
        }
        let parts = text::split_tokens(&lines[i]);
        let ghost pdv = parts.deep_view();
        let ghost old_fv = files_view(files@);
        if parts.len() >= 5 {
            proof {
                assert(pdv[2] =~= parts@[2]@);
            }
            let hash = text::string_of(&parts[2]);
            let sep: Vec<char> = Vec::new();
            let joined = text::join_range(&parts, 4, &sep);
            let name = text::string_of(&joined);
            let g = GameFile::new(hash, name);
            files.push(g);
            proof {
                assert(sep@ =~= Seq::<char>::empty());
                assert(files_view(files@) =~= old_fv.push((g.hash@, g.name@)));
                assert(spec_depot_row(dv[i as int]) == Some((g.hash@, g.name@)));
                assert(old_fv + (seq![(g.hash@, g.name@)] + spec_entries(dv.skip(i + 1), false))
                    =~= files_view(files@) + spec_entries(dv.skip(i + 1), false));
            }
        } else {
            proof {
                assert(spec_depot_row(dv[i as int]) is None);
            }
        }
        i = i + 1;
    }
    proof {
        assert(dv.skip(lines@.len() as int) =~= Seq::<Seq<char>>::empty());
        assert(files_view(files@) + Seq::<(Seq<char>, Seq<char>)>::empty() =~= files_view(
            files@,
        ));
    }
    Some(files)
}

/// Parses manifest-viewer export text. Parsing is total: malformed rows
/// are skipped, never an error.
pub fn parse_manifest_viewer_manifest(manifest: &str) -> (r: Option<Vec<GameFile>>)
    ensures
        r is Some,
        files_view(r.unwrap()@) == spec_viewer_manifest(manifest@),
{
    let cs = text::chars_of(manifest);
    let lines = text::split_lines(&cs);
    let ghost dv = lines.deep_view();
    let start = first_header(&lines, true);
    let from: usize = if start < lines.len() {
        start + 1
    } else {
        0
    };
    proof {
        if start < lines@.len() {
            assert(spec_viewer_manifest(manifest@) == spec_entries(dv.skip(from as int), true));
        } else {
            assert(dv.skip(0) =~= dv);
            assert(spec_viewer_manifest(manifest@) == spec_entries(dv.skip(from as int), true));
        }
    }
    let mut files: Vec<GameFile> = Vec::new();
    let mut i: usize = from;
    proof {
        assert(files_view(files@) =~= Seq::<(Seq<char>, Seq<char>)>::empty());
        assert(files_view(files@) + spec_entries(dv.skip(i as int), true) =~= spec_entries(
            dv.skip(i as int),
            true,
        ));
    }
    while i < lines.len()
        invariant
            from <= i <= lines@.len(),
            dv == lines.deep_view(),
            spec_entries(dv.skip(from as int), true) == files_view(files@) + spec_entries(
                dv.skip(i as int),
                true,
            ),
        decreases lines@.len() - i,
    {
        proof {
            assert(dv.skip(i as int).skip(1) =~= dv.skip(i + 1));
            assert(dv.skip(i as int)[0] == dv[i as int]);
            assert(dv[i as int] =~= lines@[i as int]@);
        }
        let parts = text::split_tokens(&lines[i]);
        let ghost pdv = parts.deep_view();
        let ghost old_fv = files_view(files@);
        if parts.len() >= 2 {
            proof {
                assert(pdv[0] =~= parts@[0]@);
            }
            let hash = text::string_of(&parts[0]);
            let mut sep: Vec<char> = Vec::new();
            sep.push(' ');
            let joined = text::join_range(&parts, 1, &sep);
            let stripped = text::strip_stars(&joined);
            let name = text::string_of(&stripped);
            let g = GameFile::new(hash, name);
            files.push(g);
            proof {
                assert(sep@ =~= seq![' ']);
                assert(files_view(files@) =~= old_fv.push((g.hash@, g.name@)));
                assert(spec_viewer_row(dv[i as int]) == Some((g.hash@, g.name@)));
                assert(old_fv + (seq![(g.hash@, g.name@)] + spec_entries(dv.skip(i + 1), true))
                    =~= files_view(files@) + spec_entries(dv.skip(i + 1), true));
            }
        } else {
            proof {
                assert(spec_viewer_row(dv[i as int]) is None);
            }
        }
        i = i + 1;
    }
    proof {
        assert(dv.skip(lines@.len() as int) =~= Seq::<Seq<char>>::empty());
        assert(files_view(files@) + Seq::<(Seq<char>, Seq<char>)>::empty() =~= files_view(
            files@,
        ));
    }
    Some(files)
}

/// Parsing is deterministic and side-effect-free: two record lists parsed
/// from the same text, in either format, are identical.
pub proof fn lemma_parse_deterministic(
    s: Seq<char>,
    viewer: bool,
    v1: Seq<(Seq<char>, Seq<char>)>,
    v2: Seq<(Seq<char>, Seq<char>)>,
)
    requires
        v1 == if viewer {
            spec_viewer_manifest(s)
        } else {
            spec_depot_manifest(s)
        },
        v2 == if viewer {
            spec_viewer_manifest(s)
        } else {
            spec_depot_manifest(s)
        },
    ensures
        v1 == v2,
{
}

// ---------------------------------------------------------------------
// Format selection by file extension.
// ---------------------------------------------------------------------

/// Why a manifest could not be produced.
#[derive(Debug, Clone, Copy, PartialEq, Eq, Structural)]
pub enum ManifestError {
    /// No manifest file is configured.
    MissingPath,
    /// The configured file could not be read.
    IoError,
    /// The file extension selects neither supported format.
    UnsupportedFormat,
}

/// Index of the last character satisfying `p`, or -1 if none does.
pub open spec fn spec_last_idx(s: Seq<char>, p: spec_fn(char) -> bool) -> int
    decreases s.len(),
{
    if s.len() == 0 {
        -1
    } else if p(s[s.len() - 1]) {
        s.len() - 1
    } else {
        spec_last_idx(s.drop_last(), p)
    }
}

proof fn lemma_last_idx(s: Seq<char>, p: spec_fn(char) -> bool, k: int)
    requires
        -1 <= k < s.len(),
        forall|j: int| k < j < s.len() ==> !p(#[trigger] s[j]),
        k >= 0 ==> p(s[k]),
    ensures
        spec_last_idx(s, p) == k,
    decreases s.len(),
{
    if s.len() == 0 {
    } else if p(s[s.len() - 1]) {
        assert(k == s.len() - 1);
    } else {
        assert(k < s.len() - 1);
        assert(forall|j: int| k < j < s.drop_last().len() ==> !p(#[trigger] s.drop_last()[j]));
        lemma_last_idx(s.drop_last(), p, k);
    }
}

/// A path separator, either platform's.
pub open spec fn spec_is_sep(c: char) -> bool {
    c == '/' || c == '\\'
}

/// The final path component.
pub open spec fn spec_file_name(path: Seq<char>) -> Seq<char> {
    path.skip(spec_last_idx(path, |c: char| spec_is_sep(c)) + 1)
}

/// The extension of the final path component: what follows its last dot,
/// unless that dot is its first character or there is none.
pub open spec fn spec_extension(path: Seq<char>) -> Option<Seq<char>> {
    let f = spec_file_name(path);
    let d = spec_last_idx(f, |c: char| c == '.');
    if d <= 0 {
        None
    } else {
        Some(f.skip(d + 1))
    }
}

/// One past the index of the last character satisfying the selected
/// predicate, or 0 if none does.
fn rfind_plus1(s: &Vec<char>, dot: bool) -> (r: usize)
    ensures
        r == spec_last_idx(
            s@,
            if dot {
                |c: char| c == '.'
            } else {
                |c: char| spec_is_sep(c)
            },
        ) + 1,
        r <= s@.len(),
{
    let ghost p = if dot {
        |c: char| c == '.'
    } else {
        |c: char| spec_is_sep(c)
    };
    let mut i: usize = s.len();
    while i > 0
        invariant
            i <= s@.len(),
            p == (if dot {
                |c: char| c == '.'
            } else {
                |c: char| spec_is_sep(c)
            }),
            forall|j: int| i <= j < s@.len() ==> !p(#[trigger] s@[j]),
        decreases i,
    {
        let c = s[i - 1];
        let hit: bool = if dot {
            c == '.'
        } else {
            c == '/' || c == '\\'
        };
        if hit {
            proof {
                lemma_last_idx(s@, p, i - 1);
            }
            return i;
        }
        i = i - 1;
    }
    proof {
        lemma_last_idx(s@, p, -1);
    }
    0
}

/// The extension of a path, as `spec_extension` gives it.
pub fn extension_of(path: &Vec<char>) -> (r: Option<Vec<char>>)
    ensures
        (r is Some) == (spec_extension(path@) is Some),
        r matches Some(e) ==> spec_extension(path@) == Some(e@),
{
    let a = rfind_plus1(path, false);
    let f = sub_chars(path, a, path.len());
    proof {
        assert(f@ =~= spec_file_name(path@));
    }
    let d = rfind_plus1(&f, true);
    if d <= 1 {
        None
    } else {
        let e = sub_chars(&f, d, f.len());
        Some(e)
    }
}

/// A copy of `s[from..to]`.
fn sub_chars(s: &Vec<char>, from: usize, to: usize) -> (r: Vec<char>)
    requires
        from <= to <= s@.len(),
    ensures
        r@ == s@.subrange(from as int, to as int),
{
    let mut r: Vec<char> = Vec::new();
    let mut i: usize = from;
    while i < to
        invariant
            from <= i <= to <= s@.len(),
            r@ == s@.subrange(from as int, i as int),
        decreases to - i,
    {
        r.push(s[i]);
        proof {
            assert(s@.subrange(from as int, i + 1) =~= s@.subrange(from as int, i as int).push(
                s@[i as int],
            ));
        }
        i = i + 1;
    }
    r
}

impl Manifest {
    /// Parses a configured manifest file's content, selecting the format
    /// by the file's extension: `.txt` is depot-download, `.sha1` is
    /// manifest-viewer, anything else is unsupported.
    ///
    /// With no path configured the answer is `MissingPath`; with a path
    /// whose content could not be read it is `IoError`.
    pub fn parse_manifest(path: &Option<String>, content: &Option<String>) -> (r: Result<
        Manifest,
        ManifestError,
    >)
        ensures
            path is None ==> (r matches Err(e) && e is MissingPath),
            path is Some && content is None ==> (r matches Err(e) && e is IoError),
            path matches Some(pa) ==> (content matches Some(c) ==> {
                let ext = spec_extension(pa@);
                if ext == Some("txt"@) {
                    r matches Ok(m) && m@ == spec_depot_manifest(c@)
                } else if ext == Some("sha1"@) {
                    r matches Ok(m) && m@ == spec_viewer_manifest(c@)
                } else {
                    r matches Err(e) && e is UnsupportedFormat
                }
            }),
    {
        let pa = match path {
            Some(pa) => pa,
            None => {
                return Err(ManifestError::MissingPath);
            },
        };
        let c = match content {
            Some(c) => c,
            None => {
                return Err(ManifestError::IoError);
            },
        };
        let pchars = text::chars_of(pa.as_str());
        let ext = match extension_of(&pchars) {
            Some(e) => e,
            None => {
                return Err(ManifestError::UnsupportedFormat);
            },
        };
        if text::eq_str(&ext, "txt") {
            let files = parse_depot_download_manifest(c.as_str()).unwrap();
            Ok(Manifest::new(files))
        } else if text::eq_str(&ext, "sha1") {
            let files = parse_manifest_viewer_manifest(c.as_str()).unwrap();
            Ok(Manifest::new(files))
        } else {
            Err(ManifestError::UnsupportedFormat)
        }
    }
}


// ---------------------------------------------------------------------
// Rendering.
// ---------------------------------------------------------------------

/// `n` spaces (none when `n` is not positive).
pub open spec fn spec_spaces(n: int) -> Seq<char>
    decreases n,
{
    if n <= 0 {
        Seq::empty()
    } else {
        seq![' '] + spec_spaces(n - 1)
    }
}

proof fn lemma_spaces(n: int)
    ensures
        spec_spaces(n).len() == (if n <= 0 {
            0int
        } else {
            n
        }),
        forall|i: int| 0 <= i < spec_spaces(n).len() ==> spec_spaces(n)[i] == ' ',
    decreases n,
{
    if n > 0 {
        lemma_spaces(n - 1);
    }
}

/// One rendered record: the hash left-aligned in a 45-character column,
/// a space, the name, a line feed.
pub open spec fn spec_render_line(hash: Seq<char>, name: Seq<char>) -> Seq<char> {
    hash + spec_spaces(45 - hash.len()) + seq![' '] + name + seq!['\n']
}

/// The rendered manifest: every record on its own line, in order.
pub open spec fn spec_render(entries: Seq<(Seq<char>, Seq<char>)>) -> Seq<char>
    decreases entries.len(),
{
    if entries.len() == 0 {
        Seq::empty()
    } else {
        spec_render_line(entries[0].0, entries[0].1) + spec_render(entries.skip(1))
    }
}

impl Manifest {
    /// The manifest as display text, one record per line.
    pub fn render(&self) -> (r: String)
        ensures
            r@ == spec_render(self@),
    {
        let ghost es = self@;
        let mut out: Vec<char> = Vec::new();
        let mut i: usize = 0;
        proof {
            assert(es.skip(0) =~= es);
            assert(out@ + spec_render(es) =~= spec_render(es));
        }
        while i < self.files.len()
            invariant
                i <= self.files@.len(),
                es == self@,
                spec_render(es) == out@ + spec_render(es.skip(i as int)),
            decreases self.files@.len() - i,
        {
            proof {
                assert(es.skip(i as int).skip(1) =~= es.skip(i + 1));
                assert(es.skip(i as int)[0] == es[i as int]);
                assert(es[i as int] == (self.files@[i as int].hash@, self.files@[i as int].name@));
            }
            let ghost old_out = out@;
            let mut hchars = text::chars_of(self.files[i].hash.as_str());
            let w = hchars.len();
            let ghost hseq = hchars@;
            out.append(&mut hchars);
            let mut pad: Vec<char> = Vec::new();
            let mut j: usize = w;
            while j < 45
                invariant
                    w <= j,
                    j <= 45 || j == w,
                    pad@.len() == j - w,
                    forall|k: int| 0 <= k < pad@.len() ==> pad@[k] == ' ',
                decreases 45 - j,
            {
                pad.push(' ');
                j = j + 1;
            }
            proof {
                lemma_spaces(45 - w as int);
                assert(pad@ =~= spec_spaces(45 - hseq.len()));
            }
            out.append(&mut pad);
            out.push(' ');
            let mut nchars = text::chars_of(self.files[i].name.as_str());
            let ghost nseq = nchars@;
            out.append(&mut nchars);
            out.push('\n');
            proof {
                assert(out@ =~= old_out + spec_render_line(hseq, nseq));
                assert(old_out + (spec_render_line(hseq, nseq) + spec_render(es.skip(i + 1)))
                    =~= out@ + spec_render(es.skip(i + 1)));
            }
            i = i + 1;
        }
        proof {
            assert(es.skip(es.len() as int) =~= Seq::<(Seq<char>, Seq<char>)>::empty());
            assert(out@ + Seq::<char>::empty() =~= out@);
        }
        text::string_of(&out)
    }
}


} // verus!
