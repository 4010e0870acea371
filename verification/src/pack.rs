//! The authoring-time pack model and its document parser.
//!
//! A pack document is a TOML-like text: a sequence of lines, each blank, a
//! comment, a table header (`[modpack]`, `[sources.modrinth]`, `[[files]]`,
//! `[files.version]`), or a `key = value` pair whose value is a quoted string
//! or a single-line array of quoted strings. Headers have one or two bare
//! segments; strings run to the next double quote with no escape sequences.
//!
//! The whole load path is specified by a spec-level parser,
//! [`spec_parse_pack`], and [`Pack::parse`] is proved to return exactly its
//! result. The game table is an untagged union resolved by field presence;
//! sources and version strategies are tagged unions on a `type` field; the
//! `channel` field defaults to `release` when absent; unknown keys and
//! unrecognized tables are ignored.
use vstd::prelude::*;
use vstd::string::*;
use crate::AthenaError;
use crate::ErrorView;
use crate::StructuralKind;
use crate::semver_support::semver_req_diag;
use crate::text::bare_end;
use crate::text::bare_end_x;
use crate::text::lex_lt;
use crate::text::quote_end;
use crate::text::quote_end_x;
use crate::text::skip_ws;
use crate::text::skip_ws_x;
use crate::text::str_eq_x;
use crate::text::str_lt_x;
use crate::text::sub_string;
use crate::vreq::VersionConstraint;
use crate::vreq::parse_req_at;

verus! {

broadcast use crate::text::lemma_skip_ws_bounds, crate::text::lemma_bare_end_bounds, crate::text::lemma_quote_end_bounds;

// ------------------------------------------------------------------
// The model
// ------------------------------------------------------------------
/// A human-authored modpack definition.
#[derive(Debug, PartialEq)]
pub struct Pack {
    pub modpack: PackMetadata,
    pub game: PackGame,
    /// Named mod sources, sorted by name; names are unique.
    pub sources: Vec<(String, PackSource)>,
    /// File entries in document order; duplicates by path are permitted.
    pub files: Vec<PackFile>,
}

/// Pack metadata: name and version are required, the summary is optional.
#[derive(Debug, PartialEq)]
pub struct PackMetadata {
    pub name: String,
    pub version: String,
    pub summary: Option<String>,
}

/// The game a pack targets: an untagged union resolved purely by which fields
/// the `[game]` table holds.
#[derive(Debug, PartialEq)]
pub enum PackGame {
    MinecraftFabric { minecraft: String, fabric_loader: String },
    MinecraftForge { minecraft: String, forge: String },
    MinecraftVanilla { minecraft: String },
}

/// A named provider of mod files, tagged by a `type` field; `labrinth.v1` is
/// the one recognized tag.
#[derive(Debug, PartialEq)]
pub enum PackSource {
    LabrinthV1 { url: String },
}

/// One file entry of a pack.
#[derive(Debug, PartialEq)]
pub struct PackFile {
    pub path: String,
    /// Source names this file may be fetched from: a set, held sorted and
    /// deduplicated.
    pub sources: Option<Vec<String>>,
    pub version: PackVersion,
    /// `None` means no restriction was written; it reads as
    /// [`PackEnv::Both`] through [`PackFile::environment_or_default`].
    pub environment: Option<PackEnv>,
}

/// A version-selection strategy, tagged by a `type` field with lowercase tags.
#[derive(Debug, PartialEq)]
pub enum PackVersion {
    Latest { channel: PackChannel },
    SemVer { version: VersionConstraint },
    Exact { version: String },
    Download { sources: Vec<String>, sha1: Option<String> },
}

/// A release channel, ordered by stability; `Release` is the default.
#[derive(Clone, Copy, Debug, PartialEq, Eq, Structural)]
pub enum PackChannel {
    Release,
    Beta,
    Alpha,
}

impl Default for PackChannel {
    /// The channel an absent `channel` field stands for.
    fn default() -> (r: Self)
        ensures
            r == PackChannel::Release,
    {
        PackChannel::Release
    }
}

/// The environment a file applies to; `Both` is the default.
#[derive(Clone, Copy, Debug, PartialEq, Eq, Structural)]
pub enum PackEnv {
    Both,
    Client,
    Server,
}

impl Default for PackEnv {
    /// The environment an absent `environment` field stands for.
    fn default() -> (r: Self)
        ensures
            r == PackEnv::Both,
    {
        PackEnv::Both
    }
}

impl PackFile {
    /// The file's environment with the default applied: `Both` where the
    /// document wrote none.
    pub fn environment_or_default(&self) -> (r: PackEnv)
        ensures
            r == match self.environment {
                Some(e) => e,
                None => PackEnv::Both,
            },
    {
        match self.environment {
            Some(e) => e,
            None => PackEnv::Both,
        }
    }
}

// ------------------------------------------------------------------
// Views
// ------------------------------------------------------------------
pub open spec fn strs_view(v: Seq<String>) -> Seq<Seq<char>> {
    v.map_values(|s: String| s@)
}

pub open spec fn opt_str_view(o: Option<String>) -> Option<Seq<char>> {
    match o {
        Some(s) => Some(s@),
        None => None,
    }
}

pub struct MetadataView {
    pub name: Seq<char>,
    pub version: Seq<char>,
    pub summary: Option<Seq<char>>,
}

pub enum GameView {
    Fabric { minecraft: Seq<char>, fabric_loader: Seq<char> },
    Forge { minecraft: Seq<char>, forge: Seq<char> },
    Vanilla { minecraft: Seq<char> },
}

pub enum SourceView {
    LabrinthV1 { url: Seq<char> },
}

pub struct FileView {
    pub path: Seq<char>,
    pub sources: Option<Seq<Seq<char>>>,
    pub version: VersionView,
    pub environment: Option<PackEnv>,
}

pub enum VersionView {
    Latest { channel: PackChannel },
    SemVer { version: Seq<char> },
    Exact { version: Seq<char> },
    Download { sources: Seq<Seq<char>>, sha1: Option<Seq<char>> },
}

pub struct PackView {
    pub modpack: MetadataView,
    pub game: GameView,
    pub sources: Seq<(Seq<char>, SourceView)>,
    pub files: Seq<FileView>,
}

impl View for PackMetadata {
    type V = MetadataView;

    open spec fn view(&self) -> MetadataView {
        MetadataView { name: self.name@, version: self.version@, summary: opt_str_view(self.summary) }
    }
}

impl View for PackGame {
    type V = GameView;

    open spec fn view(&self) -> GameView {
        match self {
            PackGame::MinecraftFabric { minecraft, fabric_loader } => GameView::Fabric {
                minecraft: minecraft@,
                fabric_loader: fabric_loader@,
            },
            PackGame::MinecraftForge { minecraft, forge } => GameView::Forge {
                minecraft: minecraft@,
                forge: forge@,
            },
            PackGame::MinecraftVanilla { minecraft } => GameView::Vanilla { minecraft: minecraft@ },
        }
    }
}

impl View for PackSource {
    type V = SourceView;

    open spec fn view(&self) -> SourceView {
        match self {
            PackSource::LabrinthV1 { url } => SourceView::LabrinthV1 { url: url@ },
        }
    }
}

impl View for PackVersion {
    type V = VersionView;

    open spec fn view(&self) -> VersionView {
        match self {
            PackVersion::Latest { channel } => VersionView::Latest { channel: *channel },
            PackVersion::SemVer { version } => VersionView::SemVer { version: version@ },
            PackVersion::Exact { version } => VersionView::Exact { version: version@ },
            PackVersion::Download { sources, sha1 } => VersionView::Download {
                sources: strs_view(sources@),
                sha1: opt_str_view(*sha1),
            },
        }
    }
}

impl View for PackFile {
    type V = FileView;

    open spec fn view(&self) -> FileView {
        FileView {
            path: self.path@,
            sources: match self.sources {
                Some(v) => Some(strs_view(v@)),
                None => None,
            },
            version: self.version@,
            environment: self.environment,
        }
    }
}

impl View for Pack {
    type V = PackView;

    open spec fn view(&self) -> PackView {
        PackView {
            modpack: self.modpack@,
            game: self.game@,
            sources: srcs_view(self.sources@),
            files: files_view(self.files@),
        }
    }
}

// ------------------------------------------------------------------
// The spec-level document grammar: lines
// ------------------------------------------------------------------
/// A parsed value: a quoted string or an array of quoted strings.
pub enum ValueView {
    Str(Seq<char>),
    Arr(Seq<Seq<char>>),
}

/// One classified line of a document. `Bad` carries the line's text.
pub enum LineView {
    Blank,
    Header { first: Seq<char>, second: Option<Seq<char>>, array: bool },
    KeyVal { key: Seq<char>, value: ValueView },
    Bad(Seq<char>),
}

/// The lines of `s`, split at each newline character.
pub open spec fn split_rec(s: Seq<char>, start: int, i: int) -> Seq<Seq<char>>
    decreases s.len() - i,
    when 0 <= start <= i <= s.len()
{
    if i == s.len() {
        seq![s.subrange(start, s.len() as int)]
    } else if s[i] == '\n' {
        seq![s.subrange(start, i)] + split_rec(s, i + 1, i + 1)
    } else {
        split_rec(s, start, i + 1)
    }
}

pub open spec fn spec_lines(s: Seq<char>) -> Seq<Seq<char>> {
    split_rec(s, 0, 0)
}

/// Nothing but whitespace or a comment from `i` to the end of the line.
pub open spec fn rest_blank(l: Seq<char>, i: int) -> bool {
    let j = skip_ws(l, i);
    j == l.len() || l[j] == '#'
}

/// A valid closing of a table header at `i`: `]` or `]]`, then only
/// whitespace or a comment.
pub open spec fn header_close(l: Seq<char>, i: int, array: bool) -> bool {
    if array {
        i + 1 < l.len() && l[i] == ']' && l[i + 1] == ']' && rest_blank(l, i + 2)
    } else {
        i < l.len() && l[i] == ']' && rest_blank(l, i + 1)
    }
}

/// A table header line at `i` (which holds `[`).
pub open spec fn spec_header(l: Seq<char>, i: int) -> LineView {
    let array = i + 1 < l.len() && l[i + 1] == '[';
    let p0 = if array {
        i + 2
    } else {
        i + 1
    };
    let e1 = bare_end(l, p0);
    if e1 == p0 {
        LineView::Bad(l)
    } else if e1 < l.len() && l[e1] == '.' {
        let p1 = e1 + 1;
        let e2 = bare_end(l, p1);
        if e2 == p1 {
            LineView::Bad(l)
        } else if header_close(l, e2, array) {
            LineView::Header { first: l.subrange(p0, e1), second: Some(l.subrange(p1, e2)), array }
        } else {
            LineView::Bad(l)
        }
    } else if header_close(l, e1, array) {
        LineView::Header { first: l.subrange(p0, e1), second: None, array }
    } else {
        LineView::Bad(l)
    }
}

/// The items of an array value, from an expected string item at `i` to the
/// closing bracket.
pub open spec fn spec_arr_items(l: Seq<char>, i: int, acc: Seq<Seq<char>>) -> Option<
    (Seq<Seq<char>>, int),
>
    decreases l.len() - i,
    when 0 <= i <= l.len()
{
    if i < l.len() && l[i] == '"' {
        let e = quote_end(l, i + 1);
        if e < l.len() {
            let item = l.subrange(i + 1, e);
            let j = skip_ws(l, e + 1);
            if j < l.len() && l[j] == ']' {
                Some((acc.push(item), j + 1))
            } else if j < l.len() && l[j] == ',' {
                let k = skip_ws(l, j + 1);
                spec_arr_items(l, k, acc.push(item))
            } else {
                None
            }
        } else {
            None
        }
    } else {
        None
    }
}

/// A value at `i`: a quoted string or an array of quoted strings; returns the
/// value and the position after it.
pub open spec fn spec_value(l: Seq<char>, i: int) -> Option<(ValueView, int)> {
    if i < l.len() && l[i] == '"' {
        let e = quote_end(l, i + 1);
        if e < l.len() {
            Some((ValueView::Str(l.subrange(i + 1, e)), e + 1))
        } else {
            None
        }
    } else if i < l.len() && l[i] == '[' {
        let j = skip_ws(l, i + 1);
        if j < l.len() && l[j] == ']' {
            Some((ValueView::Arr(Seq::empty()), j + 1))
        } else {
            match spec_arr_items(l, j, Seq::empty()) {
                Some((items, m)) => Some((ValueView::Arr(items), m)),
                None => None,
            }
        }
    } else {
        None
    }
}

/// A `key = value` line whose key starts at `i`.
pub open spec fn spec_keyval(l: Seq<char>, i: int) -> LineView {
    let e = bare_end(l, i);
    if e == i {
        LineView::Bad(l)
    } else {
        let key = l.subrange(i, e);
        let j = skip_ws(l, e);
        if j < l.len() && l[j] == '=' {
            let k = skip_ws(l, j + 1);
            match spec_value(l, k) {
                Some((v, m)) => if rest_blank(l, m) {
                    LineView::KeyVal { key, value: v }
                } else {
                    LineView::Bad(l)
                },
                None => LineView::Bad(l),
            }
        } else {
            LineView::Bad(l)
        }
    }
}

/// Classify one line.
pub open spec fn spec_line(l: Seq<char>) -> LineView {
    let i = skip_ws(l, 0);
    if i == l.len() || l[i] == '#' {
        LineView::Blank
    } else if l[i] == '[' {
        spec_header(l, i)
    } else {
        spec_keyval(l, i)
    }
}

pub open spec fn spec_line_views(s: Seq<char>) -> Seq<LineView> {
    spec_lines(s).map_values(|l: Seq<char>| spec_line(l))
}

// ------------------------------------------------------------------
// The spec-level document grammar: sections
// ------------------------------------------------------------------
/// A `key = value` entry with its 1-based line number.
pub struct EntryView {
    pub line: int,
    pub key: Seq<char>,
    pub value: ValueView,
}

/// A table of the document: its header and its entries, with the header's
/// 1-based line number.
pub struct SectionView {
    pub line: int,
    pub first: Seq<char>,
    pub second: Option<Seq<char>>,
    pub array: bool,
    pub entries: Seq<EntryView>,
}

pub open spec fn find_entry(es: Seq<EntryView>, key: Seq<char>) -> Option<EntryView>
    decreases es.len(),
{
    if es.len() == 0 {
        None
    } else if es[0].key == key {
        Some(es[0])
    } else {
        find_entry(es.drop_first(), key)
    }
}

/// Group classified lines into sections. A key before any header, a malformed
/// line, and a key repeated within one table are structural errors.
pub open spec fn spec_group(
    lines: Seq<LineView>,
    idx: int,
    cur: Option<SectionView>,
    acc: Seq<SectionView>,
) -> Result<Seq<SectionView>, ErrorView>
    decreases lines.len() - idx,
    when 0 <= idx <= lines.len()
{
    if idx == lines.len() {
        Ok(
            match cur {
                Some(s) => acc.push(s),
                None => acc,
            },
        )
    } else {
        let ln = idx + 1;
        match lines[idx] {
            LineView::Blank => spec_group(lines, idx + 1, cur, acc),
            LineView::Bad(text) => Err(
                ErrorView::Structure { line: ln, kind: StructuralKind::MalformedLine, name: text },
            ),
            LineView::Header { first, second, array } => spec_group(
                lines,
                idx + 1,
                Some(SectionView { line: ln, first, second, array, entries: Seq::empty() }),
                match cur {
                    Some(s) => acc.push(s),
                    None => acc,
                },
            ),
            LineView::KeyVal { key, value } => match cur {
                None => Err(
                    ErrorView::Structure { line: ln, kind: StructuralKind::TopLevelKey, name: key },
                ),
                Some(s) => if find_entry(s.entries, key) is Some {
                    Err(
                        ErrorView::Structure {
                            line: ln,
                            kind: StructuralKind::DuplicateField,
                            name: key,
                        },
                    )
                } else {
                    spec_group(
                        lines,
                        idx + 1,
                        Some(
                            SectionView {
                                line: s.line,
                                first: s.first,
                                second: s.second,
                                array: s.array,
                                entries: s.entries.push(EntryView { line: ln, key, value }),
                            },
                        ),
                        acc,
                    )
                },
            },
        }
    }
}

// ------------------------------------------------------------------
// The spec-level document grammar: interpreting sections
// ------------------------------------------------------------------
/// An optional string field: its line and text, or an error where the field
/// is present with an array value.
pub open spec fn get_str(sec: SectionView, key: Seq<char>) -> Result<
    Option<(int, Seq<char>)>,
    ErrorView,
> {
    match find_entry(sec.entries, key) {
        None => Ok(None),
        Some(e) => match e.value {
            ValueView::Str(s) => Ok(Some((e.line, s))),
            ValueView::Arr(_) => Err(
                ErrorView::Structure { line: e.line, kind: StructuralKind::BadValue, name: key },
            ),
        },
    }
}

/// A required string field; absence is a structural error at the header line.
pub open spec fn req_str(sec: SectionView, key: Seq<char>) -> Result<(int, Seq<char>), ErrorView> {
    match get_str(sec, key) {
        Err(e) => Err(e),
        Ok(None) => Err(
            ErrorView::Structure { line: sec.line, kind: StructuralKind::MissingField, name: key },
        ),
        Ok(Some(p)) => Ok(p),
    }
}

/// An optional array field, as [`get_str`].
pub open spec fn get_arr(sec: SectionView, key: Seq<char>) -> Result<
    Option<(int, Seq<Seq<char>>)>,
    ErrorView,
> {
    match find_entry(sec.entries, key) {
        None => Ok(None),
        Some(e) => match e.value {
            ValueView::Arr(items) => Ok(Some((e.line, items))),
            ValueView::Str(_) => Err(
                ErrorView::Structure { line: e.line, kind: StructuralKind::BadValue, name: key },
            ),
        },
    }
}

/// A required array field.
pub open spec fn req_arr(sec: SectionView, key: Seq<char>) -> Result<
    (int, Seq<Seq<char>>),
    ErrorView,
> {
    match get_arr(sec, key) {
        Err(e) => Err(e),
        Ok(None) => Err(
            ErrorView::Structure { line: sec.line, kind: StructuralKind::MissingField, name: key },
        ),
        Ok(Some(p)) => Ok(p),
    }
}

/// The `[modpack]` table: `name` and `version` required, `summary` optional.
pub open spec fn spec_sec_modpack(sec: SectionView) -> Result<MetadataView, ErrorView> {
    match req_str(sec, "name"@) {
        Err(e) => Err(e),
        Ok((_, name)) => match req_str(sec, "version"@) {
            Err(e) => Err(e),
            Ok((_, version)) => match get_str(sec, "summary"@) {
                Err(e) => Err(e),
                Ok(os) => Ok(
                    MetadataView {
                        name,
                        version,
                        summary: match os {
                            Some((_, s)) => Some(s),
                            None => None,
                        },
                    },
                ),
            },
        },
    }
}

/// The `[game]` table: an untagged union resolved by field presence.
/// `fabric-loader` selects Fabric, `forge` selects Forge, `minecraft` alone
/// selects Vanilla; `minecraft` is always required, and a table holding both
/// `fabric-loader` and `forge` satisfies two shapes and is rejected.
pub open spec fn spec_sec_game(sec: SectionView) -> Result<GameView, ErrorView> {
    match get_str(sec, "fabric-loader"@) {
        Err(e) => Err(e),
        Ok(fl) => match get_str(sec, "forge"@) {
            Err(e) => Err(e),
            Ok(fo) => if fl is Some && fo is Some {
                Err(
                    ErrorView::Structure {
                        line: sec.line,
                        kind: StructuralKind::AmbiguousGame,
                        name: "game"@,
                    },
                )
            } else {
                match req_str(sec, "minecraft"@) {
                    Err(e) => Err(e),
                    Ok((_, minecraft)) => match fl {
                        Some((_, fabric_loader)) => Ok(
                            GameView::Fabric { minecraft, fabric_loader },
                        ),
                        None => match fo {
                            Some((_, forge)) => Ok(GameView::Forge { minecraft, forge }),
                            None => Ok(GameView::Vanilla { minecraft }),
                        },
                    },
                }
            },
        },
    }
}

/// A `[sources.<name>]` table: tagged by `type`; `labrinth.v1` is the one
/// recognized tag and demands `url`.
pub open spec fn spec_sec_source(sec: SectionView) -> Result<SourceView, ErrorView> {
    match req_str(sec, "type"@) {
        Err(e) => Err(e),
        Ok((tline, tag)) => if tag == "labrinth.v1"@ {
            match req_str(sec, "url"@) {
                Err(e) => Err(e),
                Ok((_, url)) => Ok(SourceView::LabrinthV1 { url }),
            }
        } else {
            Err(ErrorView::UnknownVariant { line: tline, tag })
        },
    }
}

/// The environment token of a file entry.
pub open spec fn env_of(t: Seq<char>) -> Option<PackEnv> {
    if t == "both"@ {
        Some(PackEnv::Both)
    } else if t == "client"@ {
        Some(PackEnv::Client)
    } else if t == "server"@ {
        Some(PackEnv::Server)
    } else {
        None
    }
}

/// The channel token of a `latest` version strategy.
pub open spec fn channel_of(t: Seq<char>) -> Option<PackChannel> {
    if t == "release"@ {
        Some(PackChannel::Release)
    } else if t == "beta"@ {
        Some(PackChannel::Beta)
    } else if t == "alpha"@ {
        Some(PackChannel::Alpha)
    } else {
        None
    }
}

/// Insert a string into a sorted, deduplicated sequence.
pub open spec fn insert_str_sorted(s: Seq<Seq<char>>, k: Seq<char>) -> Seq<Seq<char>>
    decreases s.len(),
{
    if s.len() == 0 {
        seq![k]
    } else if k == s[0] {
        s
    } else if lex_lt(k, s[0]) {
        seq![k] + s
    } else {
        seq![s[0]] + insert_str_sorted(s.drop_first(), k)
    }
}

/// The canonical form of a set of names: sorted by code point, deduplicated.
pub open spec fn sorted_str_set(items: Seq<Seq<char>>) -> Seq<Seq<char>>
    decreases items.len(),
{
    if items.len() == 0 {
        Seq::empty()
    } else {
        insert_str_sorted(sorted_str_set(items.drop_last()), items.last())
    }
}

/// A file entry under construction: a `[[files]]` table whose
/// `[files.version]` table may not have arrived yet.
pub struct FileBuildView {
    pub line: int,
    pub path: Seq<char>,
    pub sources: Option<Seq<Seq<char>>>,
    pub environment: Option<PackEnv>,
    pub version: Option<VersionView>,
}

/// A `[[files]]` table: `path` required; `sources` an optional array read as
/// a set; `environment` an optional closed-set token; `version` must come as
/// a `[files.version]` table, not as an inline value.
pub open spec fn spec_sec_file(sec: SectionView) -> Result<FileBuildView, ErrorView> {
    match req_str(sec, "path"@) {
        Err(e) => Err(e),
        Ok((_, path)) => match find_entry(sec.entries, "version"@) {
            Some(e) => Err(
                ErrorView::Structure {
                    line: e.line,
                    kind: StructuralKind::BadValue,
                    name: "version"@,
                },
            ),
            None => match get_arr(sec, "sources"@) {
                Err(e) => Err(e),
                Ok(srcs) => match get_str(sec, "environment"@) {
                    Err(e) => Err(e),
                    Ok(envs) => match envs {
                        Some((eline, tok)) => match env_of(tok) {
                            Some(env) => Ok(
                                FileBuildView {
                                    line: sec.line,
                                    path,
                                    sources: match srcs {
                                        Some((_, items)) => Some(sorted_str_set(items)),
                                        None => None,
                                    },
                                    environment: Some(env),
                                    version: None,
                                },
                            ),
                            None => Err(ErrorView::UnknownVariant { line: eline, tag: tok }),
                        },
                        None => Ok(
                            FileBuildView {
                                line: sec.line,
                                path,
                                sources: match srcs {
                                    Some((_, items)) => Some(sorted_str_set(items)),
                                    None => None,
                                },
                                environment: None,
                                version: None,
                            },
                        ),
                    },
                },
            },
        },
    }
}

/// A `[files.version]` table: tagged by `type` over the closed set `latest`,
/// `semver`, `exact`, `download`. `channel` defaults to `release`; a `semver`
/// expression must satisfy semver's grammar; `download` keeps its sources in
/// document order.
pub open spec fn spec_sec_version(sec: SectionView) -> Result<VersionView, ErrorView> {
    match req_str(sec, "type"@) {
        Err(e) => Err(e),
        Ok((tline, tag)) => if tag == "latest"@ {
            match get_str(sec, "channel"@) {
                Err(e) => Err(e),
                Ok(None) => Ok(VersionView::Latest { channel: PackChannel::Release }),
                Ok(Some((cline, tok))) => match channel_of(tok) {
                    Some(channel) => Ok(VersionView::Latest { channel }),
                    None => Err(ErrorView::UnknownVariant { line: cline, tag: tok }),
                },
            }
        } else if tag == "semver"@ {
            match req_str(sec, "version"@) {
                Err(e) => Err(e),
                Ok((vline, text)) => match semver_req_diag(text) {
                    None => Ok(VersionView::SemVer { version: text }),
                    Some(detail) => Err(
                        ErrorView::ConstraintSyntax { line: vline, text, detail },
                    ),
                },
            }
        } else if tag == "exact"@ {
            match req_str(sec, "version"@) {
                Err(e) => Err(e),
                Ok((_, text)) => Ok(VersionView::Exact { version: text }),
            }
        } else if tag == "download"@ {
            match req_arr(sec, "sources"@) {
                Err(e) => Err(e),
                Ok((_, items)) => match get_str(sec, "sha1"@) {
                    Err(e) => Err(e),
                    Ok(sha) => Ok(
                        VersionView::Download {
                            sources: items,
                            sha1: match sha {
                                Some((_, s)) => Some(s),
                                None => None,
                            },
                        },
                    ),
                },
            }
        } else {
            Err(ErrorView::UnknownVariant { line: tline, tag })
        },
    }
}

// ------------------------------------------------------------------
// The spec-level document grammar: assembling the pack
// ------------------------------------------------------------------
pub struct BuildView {
    pub meta: Option<MetadataView>,
    pub game: Option<GameView>,
    pub sources: Seq<(Seq<char>, SourceView)>,
    pub files: Seq<FileBuildView>,
}

pub open spec fn has_src_key(s: Seq<(Seq<char>, SourceView)>, k: Seq<char>) -> bool {
    exists|i: int| 0 <= i < s.len() && s[i].0 == k
}

/// Insert a named source into a sequence sorted by name.
pub open spec fn insert_src_sorted(
    s: Seq<(Seq<char>, SourceView)>,
    k: Seq<char>,
    v: SourceView,
) -> Seq<(Seq<char>, SourceView)>
    decreases s.len(),
{
    if s.len() == 0 {
        seq![(k, v)]
    } else if lex_lt(k, s[0].0) {
        seq![(k, v)] + s
    } else {
        seq![s[0]] + insert_src_sorted(s.drop_first(), k, v)
    }
}

/// Close the file list: every `[[files]]` entry must have received its
/// `[files.version]` table.
pub open spec fn files_done(fs: Seq<FileBuildView>) -> Result<Seq<FileView>, ErrorView>
    decreases fs.len(),
{
    if fs.len() == 0 {
        Ok(Seq::empty())
    } else {
        match files_done(fs.drop_last()) {
            Err(e) => Err(e),
            Ok(acc) => match fs.last().version {
                Some(v) => Ok(
                    acc.push(
                        FileView {
                            path: fs.last().path,
                            sources: fs.last().sources,
                            version: v,
                            environment: fs.last().environment,
                        },
                    ),
                ),
                None => Err(
                    ErrorView::Structure {
                        line: fs.last().line,
                        kind: StructuralKind::MissingField,
                        name: "version"@,
                    },
                ),
            },
        }
    }
}

/// Close the whole build: `[modpack]` and `[game]` are required (reported at
/// line 0: they are absent from the document as a whole).
pub open spec fn spec_finalize(st: BuildView) -> Result<PackView, ErrorView> {
    match st.meta {
        None => Err(
            ErrorView::Structure { line: 0, kind: StructuralKind::MissingField, name: "modpack"@ },
        ),
        Some(modpack) => match st.game {
            None => Err(
                ErrorView::Structure { line: 0, kind: StructuralKind::MissingField, name: "game"@ },
            ),
            Some(game) => match files_done(st.files) {
                Err(e) => Err(e),
                Ok(files) => Ok(PackView { modpack, game, sources: st.sources, files }),
            },
        },
    }
}

/// Interpret the sections in document order. Recognized tables are `[modpack]`,
/// `[game]`, `[sources.<name>]`, `[[files]]` and `[files.version]`; any other
/// table is ignored with all its keys.
pub open spec fn spec_build(secs: Seq<SectionView>, i: int, st: BuildView) -> Result<
    PackView,
    ErrorView,
>
    decreases secs.len() - i,
    when 0 <= i <= secs.len()
{
    if i == secs.len() {
        spec_finalize(st)
    } else {
        let sec = secs[i];
        if sec.second is None && sec.first == "modpack"@ {
            if sec.array {
                Err(
                    ErrorView::Structure {
                        line: sec.line,
                        kind: StructuralKind::WrongTableKind,
                        name: "modpack"@,
                    },
                )
            } else if st.meta is Some {
                Err(
                    ErrorView::Structure {
                        line: sec.line,
                        kind: StructuralKind::DuplicateTable,
                        name: "modpack"@,
                    },
                )
            } else {
                match spec_sec_modpack(sec) {
                    Err(e) => Err(e),
                    Ok(m) => spec_build(
                        secs,
                        i + 1,
                        BuildView { meta: Some(m), game: st.game, sources: st.sources, files: st.files },
                    ),
                }
            }
        } else if sec.second is None && sec.first == "game"@ {
            if sec.array {
                Err(
                    ErrorView::Structure {
                        line: sec.line,
                        kind: StructuralKind::WrongTableKind,
                        name: "game"@,
                    },
                )
            } else if st.game is Some {
                Err(
                    ErrorView::Structure {
                        line: sec.line,
                        kind: StructuralKind::DuplicateTable,
                        name: "game"@,
                    },
                )
            } else {
                match spec_sec_game(sec) {
                    Err(e) => Err(e),
                    Ok(g) => spec_build(
                        secs,
                        i + 1,
                        BuildView { meta: st.meta, game: Some(g), sources: st.sources, files: st.files },
                    ),
                }
            }
        } else if sec.first == "sources"@ && sec.second is Some {
            let name = sec.second->Some_0;
            if sec.array {
                Err(
                    ErrorView::Structure {
                        line: sec.line,
                        kind: StructuralKind::WrongTableKind,
                        name,
                    },
                )
            } else if has_src_key(st.sources, name) {
                Err(
                    ErrorView::Structure {
                        line: sec.line,
                        kind: StructuralKind::DuplicateTable,
                        name,
                    },
                )
            } else {
                match spec_sec_source(sec) {
                    Err(e) => Err(e),
                    Ok(src) => spec_build(
                        secs,
                        i + 1,
                        BuildView {
                            meta: st.meta,
                            game: st.game,
                            sources: insert_src_sorted(st.sources, name, src),
                            files: st.files,
                        },
                    ),
                }
            }
        } else if sec.first == "files"@ && sec.second is None {
            if !sec.array {
                Err(
                    ErrorView::Structure {
                        line: sec.line,
                        kind: StructuralKind::WrongTableKind,
                        name: "files"@,
                    },
                )
            } else {
                match spec_sec_file(sec) {
                    Err(e) => Err(e),
                    Ok(f) => spec_build(
                        secs,
                        i + 1,
                        BuildView {
                            meta: st.meta,
                            game: st.game,
                            sources: st.sources,
                            files: st.files.push(f),
                        },
                    ),
                }
            }
        } else if sec.first == "files"@ && sec.second == Some("version"@) {
            if sec.array {
                Err(
                    ErrorView::Structure {
                        line: sec.line,
                        kind: StructuralKind::WrongTableKind,
                        name: "version"@,
                    },
                )
            } else if st.files.len() == 0 {
                Err(
                    ErrorView::Structure {
                        line: sec.line,
                        kind: StructuralKind::OrphanTable,
                        name: "version"@,
                    },
                )
            } else if st.files.last().version is Some {
                Err(
                    ErrorView::Structure {
                        line: sec.line,
                        kind: StructuralKind::DuplicateTable,
                        name: "version"@,
                    },
                )
            } else {
                match spec_sec_version(sec) {
                    Err(e) => Err(e),
                    Ok(v) => spec_build(
                        secs,
                        i + 1,
                        BuildView {
                            meta: st.meta,
                            game: st.game,
                            sources: st.sources,
                            files: st.files.update(
                                st.files.len() - 1,
                                FileBuildView {
                                    line: st.files.last().line,
                                    path: st.files.last().path,
                                    sources: st.files.last().sources,
                                    environment: st.files.last().environment,
                                    version: Some(v),
                                },
                            ),
                        },
                    ),
                }
            }
        } else {
            spec_build(secs, i + 1, st)
        }
    }
}

pub open spec fn empty_build() -> BuildView {
    BuildView { meta: None, game: None, sources: Seq::empty(), files: Seq::empty() }
}

/// The whole load path: split into lines, classify each, group into sections,
/// interpret the sections.
pub open spec fn spec_parse_pack(s: Seq<char>) -> Result<PackView, ErrorView> {
    match spec_group(spec_line_views(s), 0, None, Seq::empty()) {
        Err(e) => Err(e),
        Ok(secs) => spec_build(secs, 0, empty_build()),
    }
}


// ------------------------------------------------------------------
// Executable parsing, proved equal to the spec-level grammar
// ------------------------------------------------------------------
enum RawValue {
    Str(String),
    Arr(Vec<String>),
}

impl View for RawValue {
    type V = ValueView;

    closed spec fn view(&self) -> ValueView {
        match self {
            RawValue::Str(s) => ValueView::Str(s@),
            RawValue::Arr(v) => ValueView::Arr(strs_view(v@)),
        }
    }
}

enum LineItem {
    Blank,
    Header { first: String, second: Option<String>, array: bool },
    KeyVal { key: String, value: RawValue },
    Bad(String),
}

impl View for LineItem {
    type V = LineView;

    closed spec fn view(&self) -> LineView {
        match self {
            LineItem::Blank => LineView::Blank,
            LineItem::Header { first, second, array } => LineView::Header {
                first: first@,
                second: opt_str_view(*second),
                array: *array,
            },
            LineItem::KeyVal { key, value } => LineView::KeyVal { key: key@, value: value@ },
            LineItem::Bad(t) => LineView::Bad(t@),
        }
    }
}

struct Entry {
    line: usize,
    key: String,
    value: RawValue,
}

impl View for Entry {
    type V = EntryView;

    closed spec fn view(&self) -> EntryView {
        EntryView { line: self.line as int, key: self.key@, value: self.value@ }
    }
}

struct Section {
    line: usize,
    first: String,
    second: Option<String>,
    array: bool,
    entries: Vec<Entry>,
}

spec fn entries_view(es: Seq<Entry>) -> Seq<EntryView> {
    es.map_values(|e: Entry| e@)
}

impl View for Section {
    type V = SectionView;

    closed spec fn view(&self) -> SectionView {
        SectionView {
            line: self.line as int,
            first: self.first@,
            second: opt_str_view(self.second),
            array: self.array,
            entries: entries_view(self.entries@),
        }
    }
}

struct FileBuild {
    line: usize,
    path: String,
    sources: Option<Vec<String>>,
    environment: Option<PackEnv>,
    version: Option<PackVersion>,
}

impl View for FileBuild {
    type V = FileBuildView;

    closed spec fn view(&self) -> FileBuildView {
        FileBuildView {
            line: self.line as int,
            path: self.path@,
            sources: match self.sources {
                Some(v) => Some(strs_view(v@)),
                None => None,
            },
            environment: self.environment,
            version: match self.version {
                Some(v) => Some(v@),
                None => None,
            },
        }
    }
}

pub open spec fn srcs_view(s: Seq<(String, PackSource)>) -> Seq<(Seq<char>, SourceView)> {
    s.map_values(|p: (String, PackSource)| (p.0@, p.1@))
}

spec fn secs_view(ss: Seq<Section>) -> Seq<SectionView> {
    ss.map_values(|s: Section| s@)
}

spec fn filebuilds_view(fs: Seq<FileBuild>) -> Seq<FileBuildView> {
    fs.map_values(|f: FileBuild| f@)
}

pub open spec fn files_view(fs: Seq<PackFile>) -> Seq<FileView> {
    fs.map_values(|f: PackFile| f@)
}

spec fn opt_sec_view(c: Option<Section>) -> Option<SectionView> {
    match c {
        Some(s) => Some(s@),
        None => None,
    }
}

spec fn bstate(
    meta: Option<PackMetadata>,
    game: Option<PackGame>,
    sources: Seq<(String, PackSource)>,
    files: Seq<FileBuild>,
) -> BuildView {
    BuildView {
        meta: match meta {
            Some(m) => Some(m@),
            None => None,
        },
        game: match game {
            Some(g) => Some(g@),
            None => None,
        },
        sources: srcs_view(sources),
        files: filebuilds_view(files),
    }
}

fn split_lines_x(s: &str) -> (r: Vec<String>)
    ensures
        strs_view(r@) == spec_lines(s@),
{
    let n = s.unicode_len();
    let mut out: Vec<String> = Vec::new();
    let mut start: usize = 0;
    let mut i: usize = 0;
    proof {
        assert(strs_view(Seq::<String>::empty()) =~= Seq::<Seq<char>>::empty());
        assert(Seq::<Seq<char>>::empty() + split_rec(s@, 0, 0) =~= split_rec(s@, 0, 0));
    }
    loop
        invariant
            start <= i <= n,
            n == s@.len(),
            spec_lines(s@) == strs_view(out@) + split_rec(s@, start as int, i as int),
        decreases n - i,
    {
        if i == n {
            let ghost vprev = strs_view(out@);
            let piece = sub_string(s, start, n);
            let ghost pv = piece@;
            out.push(piece);
            proof {
                assert(strs_view(out@) =~= vprev.push(pv));
                assert(split_rec(s@, start as int, i as int) == seq![
                    s@.subrange(start as int, n as int),
                ]);
                assert(vprev + seq![pv] =~= vprev.push(pv));
                assert(strs_view(out@) =~= spec_lines(s@));
            }
            return out;
        }
        if s.get_char(i) == '\n' {
            let ghost vprev = strs_view(out@);
            let piece = sub_string(s, start, i);
            let ghost pv = piece@;
            out.push(piece);
            proof {
                assert(strs_view(out@) =~= vprev.push(pv));
                assert(split_rec(s@, start as int, i as int) == seq![pv] + split_rec(
                    s@,
                    i as int + 1,
                    i as int + 1,
                ));
                assert(vprev + (seq![pv] + split_rec(s@, i as int + 1, i as int + 1)) =~= vprev.push(
                    pv,
                ) + split_rec(s@, i as int + 1, i as int + 1));
            }
            start = i + 1;
            i = i + 1;
        } else {
            i = i + 1;
        }
    }
}

fn bad_line(l: &str) -> (r: LineItem)
    ensures
        r@ == LineView::Bad(l@),
{
    LineItem::Bad(String::from_str(l))
}

fn rest_blank_x(l: &str, i: usize, n: usize) -> (r: bool)
    requires
        n == l@.len(),
        i <= n,
    ensures
        r == rest_blank(l@, i as int),
{
    let j = skip_ws_x(l, i, n);
    if j == n {
        true
    } else {
        l.get_char(j) == '#'
    }
}

fn header_close_x(l: &str, i: usize, n: usize, array: bool) -> (r: bool)
    requires
        n == l@.len(),
        i <= n,
    ensures
        r == header_close(l@, i as int, array),
{
    if array {
        if i < n && l.get_char(i) == ']' && i + 1 < n && l.get_char(i + 1) == ']' {
            rest_blank_x(l, i + 2, n)
        } else {
            false
        }
    } else {
        if i < n && l.get_char(i) == ']' {
            rest_blank_x(l, i + 1, n)
        } else {
            false
        }
    }
}

fn parse_header_x(l: &str, i: usize, n: usize) -> (r: LineItem)
    requires
        n == l@.len(),
        i < n,
        l@[i as int] == '[',
    ensures
        r@ == spec_header(l@, i as int),
{
    let array = i + 1 < n && l.get_char(i + 1) == '[';
    let p0 = if array {
        i + 2
    } else {
        i + 1
    };
    let e1 = bare_end_x(l, p0, n);
    if e1 == p0 {
        return bad_line(l);
    }
    if e1 < n && l.get_char(e1) == '.' {
        let p1 = e1 + 1;
        let e2 = bare_end_x(l, p1, n);
        if e2 == p1 {
            return bad_line(l);
        }
        if header_close_x(l, e2, n, array) {
            LineItem::Header {
                first: sub_string(l, p0, e1),
                second: Some(sub_string(l, p1, e2)),
                array,
            }
        } else {
            bad_line(l)
        }
    } else if header_close_x(l, e1, n, array) {
        LineItem::Header { first: sub_string(l, p0, e1), second: None, array }
    } else {
        bad_line(l)
    }
}

fn parse_arr_items_x(l: &str, from: usize, n: usize) -> (r: Option<(Vec<String>, usize)>)
    requires
        n == l@.len(),
        from <= n,
    ensures
        match r {
            Some((items, m)) => m <= n && spec_arr_items(l@, from as int, Seq::empty()) == Some(
                (strs_view(items@), m as int),
            ),
            None => spec_arr_items(l@, from as int, Seq::empty()) is None,
        },
{
    let mut acc: Vec<String> = Vec::new();
    let mut i = from;
    proof {
        assert(strs_view(Seq::<String>::empty()) =~= Seq::<Seq<char>>::empty());
    }
    loop
        invariant
            i <= n,
            n == l@.len(),
            spec_arr_items(l@, from as int, Seq::empty()) == spec_arr_items(
                l@,
                i as int,
                strs_view(acc@),
            ),
        decreases n - i,
    {
        if i == n {
            return None;
        }
        if l.get_char(i) != '"' {
            return None;
        }
        let e = quote_end_x(l, i + 1, n);
        if e == n {
            return None;
        }
        let ghost vprev = strs_view(acc@);
        let item = sub_string(l, i + 1, e);
        let ghost iv = item@;
        let j = skip_ws_x(l, e + 1, n);
        if j < n && l.get_char(j) == ']' {
            acc.push(item);
            proof {
                assert(strs_view(acc@) =~= vprev.push(iv));
            }
            return Some((acc, j + 1));
        } else if j < n && l.get_char(j) == ',' {
            let k = skip_ws_x(l, j + 1, n);
            acc.push(item);
            proof {
                assert(strs_view(acc@) =~= vprev.push(iv));
            }
            i = k;
        } else {
            return None;
        }
    }
}

fn parse_value_x(l: &str, i: usize, n: usize) -> (r: Option<(RawValue, usize)>)
    requires
        n == l@.len(),
        i <= n,
    ensures
        match r {
            Some((v, m)) => m <= n && spec_value(l@, i as int) == Some((v@, m as int)),
            None => spec_value(l@, i as int) is None,
        },
{
    if i < n && l.get_char(i) == '"' {
        let e = quote_end_x(l, i + 1, n);
        if e < n {
            Some((RawValue::Str(sub_string(l, i + 1, e)), e + 1))
        } else {
            None
        }
    } else if i < n && l.get_char(i) == '[' {
        let j = skip_ws_x(l, i + 1, n);
        if j < n && l.get_char(j) == ']' {
            let empty: Vec<String> = Vec::new();
            proof {
                assert(strs_view(Seq::<String>::empty()) =~= Seq::<Seq<char>>::empty());
            }
            Some((RawValue::Arr(empty), j + 1))
        } else {
            match parse_arr_items_x(l, j, n) {
                Some((items, m)) => Some((RawValue::Arr(items), m)),
                None => None,
            }
        }
    } else {
        None
    }
}

fn parse_keyval_x(l: &str, i: usize, n: usize) -> (r: LineItem)
    requires
        n == l@.len(),
        i < n,
    ensures
        r@ == spec_keyval(l@, i as int),
{
    let e = bare_end_x(l, i, n);
    if e == i {
        return bad_line(l);
    }
    let key = sub_string(l, i, e);
    let j = skip_ws_x(l, e, n);
    if j < n && l.get_char(j) == '=' {
        let k = skip_ws_x(l, j + 1, n);
        match parse_value_x(l, k, n) {
            Some((v, m)) => if rest_blank_x(l, m, n) {
                LineItem::KeyVal { key, value: v }
            } else {
                bad_line(l)
            },
            None => bad_line(l),
        }
    } else {
        bad_line(l)
    }
}

fn parse_line_x(l: &str) -> (r: LineItem)
    ensures
        r@ == spec_line(l@),
{
    let n = l.unicode_len();
    let i = skip_ws_x(l, 0, n);
    if i == n {
        return LineItem::Blank;
    }
    let c = l.get_char(i);
    if c == '#' {
        return LineItem::Blank;
    }
    if c == '[' {
        parse_header_x(l, i, n)
    } else {
        parse_keyval_x(l, i, n)
    }
}

fn find_entry_x(entries: &Vec<Entry>, key: &str) -> (r: Option<usize>)
    ensures
        match r {
            Some(i) => i < entries@.len() && find_entry(entries_view(entries@), key@) == Some(
                entries@[i as int]@,
            ),
            None => find_entry(entries_view(entries@), key@) is None,
        },
{
    let ghost ev = entries_view(entries@);
    proof {
        assert(ev.skip(0) =~= ev);
    }
    let mut i: usize = 0;
    loop
        invariant
            i <= entries@.len(),
            ev == entries_view(entries@),
            ev.len() == entries@.len(),
            find_entry(ev, key@) == find_entry(ev.skip(i as int), key@),
        decreases entries@.len() - i,
    {
        if i == entries.len() {
            return None;
        }
        if str_eq_x(entries[i].key.as_str(), key) {
            proof {
                assert(ev.skip(i as int)[0] == ev[i as int]);
            }
            return Some(i);
        }
        proof {
            assert(ev.skip(i as int)[0] == ev[i as int]);
            assert(ev.skip(i as int).drop_first() =~= ev.skip(i as int + 1));
        }
        i = i + 1;
    }
}

fn get_str_x(sec: &Section, key: &str) -> (r: Result<Option<(usize, String)>, AthenaError>)
    ensures
        match r {
            Ok(None) => get_str(sec@, key@) == Ok::<Option<(int, Seq<char>)>, ErrorView>(None),
            Ok(Some((ln, s))) => get_str(sec@, key@) == Ok::<Option<(int, Seq<char>)>, ErrorView>(
                Some((ln as int, s@)),
            ),
            Err(e) => get_str(sec@, key@) == Err::<Option<(int, Seq<char>)>, ErrorView>(e@),
        },
{
    match find_entry_x(&sec.entries, key) {
        None => Ok(None),
        Some(i) => {
            let e = &sec.entries[i];
            match &e.value {
                RawValue::Str(s) => Ok(Some((e.line, s.clone()))),
                RawValue::Arr(_) => Err(
                    AthenaError::Structure {
                        line: e.line,
                        kind: StructuralKind::BadValue,
                        name: String::from_str(key),
                    },
                ),
            }
        },
    }
}

fn req_str_x(sec: &Section, key: &str) -> (r: Result<(usize, String), AthenaError>)
    ensures
        match r {
            Ok((ln, s)) => req_str(sec@, key@) == Ok::<(int, Seq<char>), ErrorView>(
                (ln as int, s@),
            ),
            Err(e) => req_str(sec@, key@) == Err::<(int, Seq<char>), ErrorView>(e@),
        },
{
    match get_str_x(sec, key) {
        Err(e) => Err(e),
        Ok(None) => Err(
            AthenaError::Structure {
                line: sec.line,
                kind: StructuralKind::MissingField,
                name: String::from_str(key),
            },
        ),
        Ok(Some(p)) => Ok(p),
    }
}

fn clone_strs(v: &Vec<String>) -> (r: Vec<String>)
    ensures
        r@ == v@,
{
    let mut out: Vec<String> = Vec::new();
    let mut i: usize = 0;
    while i < v.len()
        invariant
            i <= v@.len(),
            out@ == v@.take(i as int),
        decreases v@.len() - i,
    {
        out.push(v[i].clone());
        proof {
            assert(v@.take(i as int).push(v@[i as int]) =~= v@.take(i as int + 1));
        }
        i = i + 1;
    }
    proof {
        assert(v@.take(v@.len() as int) =~= v@);
    }
    out
}

fn get_arr_x(sec: &Section, key: &str) -> (r: Result<Option<(usize, Vec<String>)>, AthenaError>)
    ensures
        match r {
            Ok(None) => get_arr(sec@, key@) == Ok::<Option<(int, Seq<Seq<char>>)>, ErrorView>(None),
            Ok(Some((ln, items))) => get_arr(sec@, key@) == Ok::<
                Option<(int, Seq<Seq<char>>)>,
                ErrorView,
            >(Some((ln as int, strs_view(items@)))),
            Err(e) => get_arr(sec@, key@) == Err::<Option<(int, Seq<Seq<char>>)>, ErrorView>(e@),
        },
{
    match find_entry_x(&sec.entries, key) {
        None => Ok(None),
        Some(i) => {
            let e = &sec.entries[i];
            match &e.value {
                RawValue::Arr(items) => Ok(Some((e.line, clone_strs(items)))),
                RawValue::Str(_) => Err(
                    AthenaError::Structure {
                        line: e.line,
                        kind: StructuralKind::BadValue,
                        name: String::from_str(key),
                    },
                ),
            }
        },
    }
}

fn req_arr_x(sec: &Section, key: &str) -> (r: Result<(usize, Vec<String>), AthenaError>)
    ensures
        match r {
            Ok((ln, items)) => req_arr(sec@, key@) == Ok::<(int, Seq<Seq<char>>), ErrorView>(
                (ln as int, strs_view(items@)),
            ),
            Err(e) => req_arr(sec@, key@) == Err::<(int, Seq<Seq<char>>), ErrorView>(e@),
        },
{
    match get_arr_x(sec, key) {
        Err(e) => Err(e),
        Ok(None) => Err(
            AthenaError::Structure {
                line: sec.line,
                kind: StructuralKind::MissingField,
                name: String::from_str(key),
            },
        ),
        Ok(Some(p)) => Ok(p),
    }
}

fn sec_modpack_x(sec: &Section) -> (r: Result<PackMetadata, AthenaError>)
    ensures
        match r {
            Ok(m) => spec_sec_modpack(sec@) == Ok::<MetadataView, ErrorView>(m@),
            Err(e) => spec_sec_modpack(sec@) == Err::<MetadataView, ErrorView>(e@),
        },
{
    let name = match req_str_x(sec, "name") {
        Ok((_, s)) => s,
        Err(e) => {
            return Err(e);
        },
    };
    let version = match req_str_x(sec, "version") {
        Ok((_, s)) => s,
        Err(e) => {
            return Err(e);
        },
    };
    let summary = match get_str_x(sec, "summary") {
        Ok(None) => None,
        Ok(Some((_, s))) => Some(s),
        Err(e) => {
            return Err(e);
        },
    };
    Ok(PackMetadata { name, version, summary })
}

fn sec_game_x(sec: &Section) -> (r: Result<PackGame, AthenaError>)
    ensures
        match r {
            Ok(g) => spec_sec_game(sec@) == Ok::<GameView, ErrorView>(g@),
            Err(e) => spec_sec_game(sec@) == Err::<GameView, ErrorView>(e@),
        },
{
    let fl = match get_str_x(sec, "fabric-loader") {
        Ok(v) => v,
        Err(e) => {
            return Err(e);
        },
    };
    let fo = match get_str_x(sec, "forge") {
        Ok(v) => v,
        Err(e) => {
            return Err(e);
        },
    };
    if fl.is_some() && fo.is_some() {
        return Err(
            AthenaError::Structure {
                line: sec.line,
                kind: StructuralKind::AmbiguousGame,
                name: String::from_str("game"),
            },
        );
    }
    let minecraft = match req_str_x(sec, "minecraft") {
        Ok((_, s)) => s,
        Err(e) => {
            return Err(e);
        },
    };
    match fl {
        Some((_, fabric_loader)) => Ok(PackGame::MinecraftFabric { minecraft, fabric_loader }),
        None => match fo {
            Some((_, forge)) => Ok(PackGame::MinecraftForge { minecraft, forge }),
            None => Ok(PackGame::MinecraftVanilla { minecraft }),
        },
    }
}

fn sec_source_x(sec: &Section) -> (r: Result<PackSource, AthenaError>)
    ensures
        match r {
            Ok(s) => spec_sec_source(sec@) == Ok::<SourceView, ErrorView>(s@),
            Err(e) => spec_sec_source(sec@) == Err::<SourceView, ErrorView>(e@),
        },
{
    let (tline, tag) = match req_str_x(sec, "type") {
        Ok(p) => p,
        Err(e) => {
            return Err(e);
        },
    };
    if str_eq_x(tag.as_str(), "labrinth.v1") {
        let url = match req_str_x(sec, "url") {
            Ok((_, s)) => s,
            Err(e) => {
                return Err(e);
            },
        };
        Ok(PackSource::LabrinthV1 { url })
    } else {
        Err(AthenaError::UnknownVariant { line: tline, tag })
    }
}

fn env_of_x(t: &String) -> (r: Option<PackEnv>)
    ensures
        r == env_of(t@),
{
    if str_eq_x(t.as_str(), "both") {
        Some(PackEnv::Both)
    } else if str_eq_x(t.as_str(), "client") {
        Some(PackEnv::Client)
    } else if str_eq_x(t.as_str(), "server") {
        Some(PackEnv::Server)
    } else {
        None
    }
}

fn channel_of_x(t: &String) -> (r: Option<PackChannel>)
    ensures
        r == channel_of(t@),
{
    if str_eq_x(t.as_str(), "release") {
        Some(PackChannel::Release)
    } else if str_eq_x(t.as_str(), "beta") {
        Some(PackChannel::Beta)
    } else if str_eq_x(t.as_str(), "alpha") {
        Some(PackChannel::Alpha)
    } else {
        None
    }
}

fn insert_str_set_x(v: Vec<String>, key: String) -> (r: Vec<String>)
    ensures
        strs_view(r@) == insert_str_sorted(strs_view(v@), key@),
    decreases v@.len(),
{
    let ghost vv = strs_view(v@);
    let ghost kv = key@;
    if v.len() == 0 {
        let mut out: Vec<String> = Vec::new();
        out.push(key);
        proof {
            assert(strs_view(out@) =~= seq![kv]);
        }
        out
    } else if str_eq_x(v[0].as_str(), key.as_str()) {
        v
    } else if str_lt_x(key.as_str(), v[0].as_str()) {
        let mut v = v;
        v.insert(0, key);
        proof {
            assert(strs_view(v@) =~= seq![kv] + vv);
        }
        v
    } else {
        let mut v = v;
        let first = v.remove(0);
        let ghost fv = first@;
        proof {
            assert(strs_view(v@) =~= vv.drop_first());
        }
        let mut rest = insert_str_set_x(v, key);
        rest.insert(0, first);
        proof {
            assert(strs_view(rest@) =~= seq![fv] + insert_str_sorted(vv.drop_first(), kv));
        }
        rest
    }
}

fn sorted_set_x(items: &Vec<String>) -> (r: Vec<String>)
    ensures
        strs_view(r@) == sorted_str_set(strs_view(items@)),
{
    let mut out: Vec<String> = Vec::new();
    proof {
        assert(strs_view(Seq::<String>::empty()) =~= Seq::<Seq<char>>::empty());
        assert(strs_view(items@).take(0) =~= Seq::<Seq<char>>::empty());
        assert(sorted_str_set(strs_view(items@).take(0)) =~= Seq::<Seq<char>>::empty());
    }
    let mut i: usize = 0;
    while i < items.len()
        invariant
            i <= items@.len(),
            strs_view(out@) == sorted_str_set(strs_view(items@).take(i as int)),
        decreases items@.len() - i,
    {
        out = insert_str_set_x(out, items[i].clone());
        proof {
            assert(strs_view(items@).take(i as int + 1).drop_last() =~= strs_view(items@).take(
                i as int,
            ));
            assert(strs_view(items@).take(i as int + 1).last() == strs_view(items@)[i as int]);
        }
        i = i + 1;
    }
    proof {
        assert(strs_view(items@).take(items@.len() as int) =~= strs_view(items@));
    }
    out
}

fn sec_file_x(sec: &Section) -> (r: Result<FileBuild, AthenaError>)
    ensures
        match r {
            Ok(f) => spec_sec_file(sec@) == Ok::<FileBuildView, ErrorView>(f@),
            Err(e) => spec_sec_file(sec@) == Err::<FileBuildView, ErrorView>(e@),
        },
{
    let path = match req_str_x(sec, "path") {
        Ok((_, s)) => s,
        Err(e) => {
            return Err(e);
        },
    };
    match find_entry_x(&sec.entries, "version") {
        Some(i) => {
            return Err(
                AthenaError::Structure {
                    line: sec.entries[i].line,
                    kind: StructuralKind::BadValue,
                    name: String::from_str("version"),
                },
            );
        },
        None => {},
    }
    let srcs = match get_arr_x(sec, "sources") {
        Ok(v) => v,
        Err(e) => {
            return Err(e);
        },
    };
    let environment = match get_str_x(sec, "environment") {
        Ok(None) => None,
        Ok(Some((eline, tok))) => match env_of_x(&tok) {
            Some(env) => Some(env),
            None => {
                return Err(AthenaError::UnknownVariant { line: eline, tag: tok });
            },
        },
        Err(e) => {
            return Err(e);
        },
    };
    let sources = match srcs {
        Some((_, items)) => Some(sorted_set_x(&items)),
        None => None,
    };
    Ok(FileBuild { line: sec.line, path, sources, environment, version: None })
}

fn sec_version_x(sec: &Section) -> (r: Result<PackVersion, AthenaError>)
    ensures
        match r {
            Ok(v) => spec_sec_version(sec@) == Ok::<VersionView, ErrorView>(v@),
            Err(e) => spec_sec_version(sec@) == Err::<VersionView, ErrorView>(e@),
        },
{
    let (tline, tag) = match req_str_x(sec, "type") {
        Ok(p) => p,
        Err(e) => {
            return Err(e);
        },
    };
    if str_eq_x(tag.as_str(), "latest") {
        match get_str_x(sec, "channel") {
            Err(e) => Err(e),
            Ok(None) => Ok(PackVersion::Latest { channel: PackChannel::Release }),
            Ok(Some((cline, tok))) => match channel_of_x(&tok) {
                Some(channel) => Ok(PackVersion::Latest { channel }),
                None => Err(AthenaError::UnknownVariant { line: cline, tag: tok }),
            },
        }
    } else if str_eq_x(tag.as_str(), "semver") {
        let (vline, text) = match req_str_x(sec, "version") {
            Ok(p) => p,
            Err(e) => {
                return Err(e);
            },
        };
        match parse_req_at(vline, text.as_str()) {
            Ok(vc) => Ok(PackVersion::SemVer { version: vc }),
            Err(e) => Err(e),
        }
    } else if str_eq_x(tag.as_str(), "exact") {
        let text = match req_str_x(sec, "version") {
            Ok((_, s)) => s,
            Err(e) => {
                return Err(e);
            },
        };
        Ok(PackVersion::Exact { version: text })
    } else if str_eq_x(tag.as_str(), "download") {
        let items = match req_arr_x(sec, "sources") {
            Ok((_, v)) => v,
            Err(e) => {
                return Err(e);
            },
        };
        let sha1 = match get_str_x(sec, "sha1") {
            Ok(None) => None,
            Ok(Some((_, s))) => Some(s),
            Err(e) => {
                return Err(e);
            },
        };
        Ok(PackVersion::Download { sources: items, sha1 })
    } else {
        Err(AthenaError::UnknownVariant { line: tline, tag })
    }
}

fn has_src_key_x(v: &Vec<(String, PackSource)>, key: &str) -> (r: bool)
    ensures
        r == has_src_key(srcs_view(v@), key@),
{
    let mut i: usize = 0;
    while i < v.len()
        invariant
            i <= v@.len(),
            forall|j: int| 0 <= j < i ==> srcs_view(v@)[j].0 != key@,
        decreases v@.len() - i,
    {
        if str_eq_x(v[i].0.as_str(), key) {
            proof {
                assert(srcs_view(v@)[i as int].0 == key@);
            }
            return true;
        }
        proof {
            assert(srcs_view(v@)[i as int].0 == v@[i as int].0@);
        }
        i = i + 1;
    }
    false
}

fn insert_source_x(v: Vec<(String, PackSource)>, key: String, src: PackSource) -> (r: Vec<
    (String, PackSource),
>)
    ensures
        srcs_view(r@) == insert_src_sorted(srcs_view(v@), key@, src@),
    decreases v@.len(),
{
    let ghost vv = srcs_view(v@);
    let ghost kv = key@;
    let ghost sv = src@;
    if v.len() == 0 {
        let mut out: Vec<(String, PackSource)> = Vec::new();
        out.push((key, src));
        proof {
            assert(srcs_view(out@) =~= seq![(kv, sv)]);
        }
        out
    } else if str_lt_x(key.as_str(), v[0].0.as_str()) {
        let mut v = v;
        v.insert(0, (key, src));
        proof {
            assert(srcs_view(v@) =~= seq![(kv, sv)] + vv);
        }
        v
    } else {
        let mut v = v;
        let first = v.remove(0);
        let ghost fv = (first.0@, first.1@);
        proof {
            assert(srcs_view(v@) =~= vv.drop_first());
        }
        let mut rest = insert_source_x(v, key, src);
        rest.insert(0, first);
        proof {
            assert(srcs_view(rest@) =~= seq![fv] + insert_src_sorted(vv.drop_first(), kv, sv));
            assert(fv == vv[0]);
        }
        rest
    }
}

proof fn lemma_files_done_err(fs: Seq<FileBuildView>, m: int)
    requires
        0 <= m <= fs.len(),
        files_done(fs.take(m)) is Err,
    ensures
        files_done(fs) == files_done(fs.take(m)),
    decreases fs.len() - m,
{
    if m < fs.len() {
        assert(fs.take(m + 1).drop_last() =~= fs.take(m));
        lemma_files_done_err(fs, m + 1);
    } else {
        assert(fs.take(m) =~= fs);
    }
}

impl Pack {
    /// Parse a pack document.
    ///
    /// The result is exactly what the spec-level grammar [`spec_parse_pack`]
    /// gives for the document's text: the parsed pack on a well-formed
    /// document, and otherwise the first error in document order.
    pub fn parse(document: &str) -> (r: Result<Pack, AthenaError>)
        ensures
            match r {
                Ok(p) => spec_parse_pack(document@) == Ok::<PackView, ErrorView>(p@),
                Err(e) => spec_parse_pack(document@) == Err::<PackView, ErrorView>(e@),
            },
    {
        let lines = split_lines_x(document);
        let ghost lviews = spec_line_views(document@);
        proof {
            assert(lviews =~= strs_view(lines@).map_values(|l: Seq<char>| spec_line(l)));
        }
        // Group the lines into sections.
        let mut cur: Option<Section> = None;
        let mut acc: Vec<Section> = Vec::new();
        let mut idx: usize = 0;
        proof {
            assert(secs_view(Seq::<Section>::empty()) =~= Seq::<SectionView>::empty());
        }
        while idx < lines.len()
            invariant
                idx <= lines@.len(),
                lviews == spec_line_views(document@),
                lviews =~= strs_view(lines@).map_values(|l: Seq<char>| spec_line(l)),
                lviews.len() == lines@.len(),
                spec_group(lviews, 0, None, Seq::empty()) == spec_group(
                    lviews,
                    idx as int,
                    opt_sec_view(cur),
                    secs_view(acc@),
                ),
            decreases lines@.len() - idx,
        {
            let item = parse_line_x(lines[idx].as_str());
            proof {
                assert(lviews[idx as int] == spec_line(strs_view(lines@)[idx as int]));
                assert(strs_view(lines@)[idx as int] == lines@[idx as int]@);
            }
            match item {
                LineItem::Blank => {},
                LineItem::Bad(text) => {
                    return Err(
                        AthenaError::Structure {
                            line: idx + 1,
                            kind: StructuralKind::MalformedLine,
                            name: text,
                        },
                    );
                },
                LineItem::Header { first, second, array } => {
                    let ghost aprev = secs_view(acc@);
                    match cur {
                        Some(s) => {
                            let ghost svw = s@;
                            acc.push(s);
                            proof {
                                assert(secs_view(acc@) =~= aprev.push(svw));
                            }
                        },
                        None => {},
                    }
                    cur = Some(
                        Section { line: idx + 1, first, second, array, entries: Vec::new() },
                    );
                    proof {
                        assert(entries_view(Seq::<Entry>::empty()) =~= Seq::<EntryView>::empty());
                    }
                },
                LineItem::KeyVal { key, value } => {
                    match cur {
                        None => {
                            return Err(
                                AthenaError::Structure {
                                    line: idx + 1,
                                    kind: StructuralKind::TopLevelKey,
                                    name: key,
                                },
                            );
                        },
                        Some(mut s) => {
                            match find_entry_x(&s.entries, key.as_str()) {
                                Some(_) => {
                                    return Err(
                                        AthenaError::Structure {
                                            line: idx + 1,
                                            kind: StructuralKind::DuplicateField,
                                            name: key,
                                        },
                                    );
                                },
                                None => {},
                            }
                            let ghost eprev = entries_view(s.entries@);
                            let entry = Entry { line: idx + 1, key, value };
                            let ghost evw = entry@;
                            s.entries.push(entry);
                            proof {
                                assert(entries_view(s.entries@) =~= eprev.push(evw));
                            }
                            cur = Some(s);
                        },
                    }
                },
            }
            idx = idx + 1;
        }
        let ghost aprev = secs_view(acc@);
        match cur {
            Some(s) => {
                let ghost svw = s@;
                acc.push(s);
                proof {
                    assert(secs_view(acc@) =~= aprev.push(svw));
                }
            },
            None => {},
        }
        let ghost secs = secs_view(acc@);
        proof {
            assert(spec_group(lviews, 0, None, Seq::empty()) == Ok::<Seq<SectionView>, ErrorView>(
                secs,
            ));
        }
        // Interpret the sections in order.
        let mut meta: Option<PackMetadata> = None;
        let mut game: Option<PackGame> = None;
        let mut sources: Vec<(String, PackSource)> = Vec::new();
        let mut files: Vec<FileBuild> = Vec::new();
        proof {
            assert(srcs_view(Seq::<(String, PackSource)>::empty()) =~= Seq::<
                (Seq<char>, SourceView),
            >::empty());
            assert(filebuilds_view(Seq::<FileBuild>::empty()) =~= Seq::<FileBuildView>::empty());
        }
        let mut i: usize = 0;
        while i < acc.len()
            invariant
                i <= acc@.len(),
                secs == secs_view(acc@),
                secs.len() == acc@.len(),
                spec_group(spec_line_views(document@), 0, None, Seq::empty()) == Ok::<
                    Seq<SectionView>,
                    ErrorView,
                >(secs),
                spec_build(secs, 0, empty_build()) == spec_build(
                    secs,
                    i as int,
                    bstate(meta, game, sources@, files@),
                ),
            decreases acc@.len() - i,
        {
            let sec = &acc[i];
            proof {
                assert(secs[i as int] == acc@[i as int]@);
            }
            let second_none = sec.second.is_none();
            if second_none && str_eq_x(sec.first.as_str(), "modpack") {
                if sec.array {
                    return Err(
                        AthenaError::Structure {
                            line: sec.line,
                            kind: StructuralKind::WrongTableKind,
                            name: String::from_str("modpack"),
                        },
                    );
                }
                if meta.is_some() {
                    return Err(
                        AthenaError::Structure {
                            line: sec.line,
                            kind: StructuralKind::DuplicateTable,
                            name: String::from_str("modpack"),
                        },
                    );
                }
                match sec_modpack_x(sec) {
                    Ok(m) => {
                        meta = Some(m);
                    },
                    Err(e) => {
                        return Err(e);
                    },
                }
            } else if second_none && str_eq_x(sec.first.as_str(), "game") {
                if sec.array {
                    return Err(
                        AthenaError::Structure {
                            line: sec.line,
                            kind: StructuralKind::WrongTableKind,
                            name: String::from_str("game"),
                        },
                    );
                }
                if game.is_some() {
                    return Err(
                        AthenaError::Structure {
                            line: sec.line,
                            kind: StructuralKind::DuplicateTable,
                            name: String::from_str("game"),
                        },
                    );
                }
                match sec_game_x(sec) {
                    Ok(g) => {
                        game = Some(g);
                    },
                    Err(e) => {
                        return Err(e);
                    },
                }
            } else if !second_none && str_eq_x(sec.first.as_str(), "sources") {
                let name = match &sec.second {
                    Some(nm) => nm.clone(),
                    None => {
                        return Err(
                            AthenaError::Structure {
                                line: sec.line,
                                kind: StructuralKind::MalformedLine,
                                name: String::from_str("sources"),
                            },
                        );
                    },
                };
                if sec.array {
                    return Err(
                        AthenaError::Structure {
                            line: sec.line,
                            kind: StructuralKind::WrongTableKind,
                            name,
                        },
                    );
                }
                if has_src_key_x(&sources, name.as_str()) {
                    return Err(
                        AthenaError::Structure {
                            line: sec.line,
                            kind: StructuralKind::DuplicateTable,
                            name,
                        },
                    );
                }
                match sec_source_x(sec) {
                    Ok(src) => {
                        sources = insert_source_x(sources, name, src);
                    },
                    Err(e) => {
                        return Err(e);
                    },
                }
            } else if second_none && str_eq_x(sec.first.as_str(), "files") {
                if !sec.array {
                    return Err(
                        AthenaError::Structure {
                            line: sec.line,
                            kind: StructuralKind::WrongTableKind,
                            name: String::from_str("files"),
                        },
                    );
                }
                match sec_file_x(sec) {
                    Ok(f) => {
                        let ghost fprev = filebuilds_view(files@);
                        let ghost fvw = f@;
                        files.push(f);
                        proof {
                            assert(filebuilds_view(files@) =~= fprev.push(fvw));
                        }
                    },
                    Err(e) => {
                        return Err(e);
                    },
                }
            } else {
                let is_version_tbl = str_eq_x(sec.first.as_str(), "files") && match &sec.second {
                    Some(snd) => str_eq_x(snd.as_str(), "version"),
                    None => false,
                };
                if is_version_tbl {
                    if sec.array {
                        return Err(
                            AthenaError::Structure {
                                line: sec.line,
                                kind: StructuralKind::WrongTableKind,
                                name: String::from_str("version"),
                            },
                        );
                    }
                    if files.len() == 0 {
                        return Err(
                            AthenaError::Structure {
                                line: sec.line,
                                kind: StructuralKind::OrphanTable,
                                name: String::from_str("version"),
                            },
                        );
                    }
                    let last_has_version = match &files[files.len() - 1].version {
                        Some(_) => true,
                        None => false,
                    };
                    proof {
                        assert(filebuilds_view(files@).last() == files@.last()@);
                    }
                    if last_has_version {
                        return Err(
                            AthenaError::Structure {
                                line: sec.line,
                                kind: StructuralKind::DuplicateTable,
                                name: String::from_str("version"),
                            },
                        );
                    }
                    match sec_version_x(sec) {
                        Ok(v) => {
                            let ghost fprev = filebuilds_view(files@);
                            let mut fb = match files.pop() {
                                Some(fb) => fb,
                                None => {
                                    return Err(
                                        AthenaError::Structure {
                                            line: sec.line,
                                            kind: StructuralKind::OrphanTable,
                                            name: String::from_str("version"),
                                        },
                                    );
                                },
                            };
                            fb.version = Some(v);
                            let ghost fvw = fb@;
                            files.push(fb);
                            proof {
                                assert(filebuilds_view(files@) =~= fprev.update(
                                    fprev.len() - 1,
                                    fvw,
                                ));
                            }
                        },
                        Err(e) => {
                            return Err(e);
                        },
                    }
                }
            }
            i = i + 1;
        }
        // Close the build.
        let modpack = match meta {
            Some(m) => m,
            None => {
                return Err(
                    AthenaError::Structure {
                        line: 0,
                        kind: StructuralKind::MissingField,
                        name: String::from_str("modpack"),
                    },
                );
            },
        };
        let game = match game {
            Some(g) => g,
            None => {
                return Err(
                    AthenaError::Structure {
                        line: 0,
                        kind: StructuralKind::MissingField,
                        name: String::from_str("game"),
                    },
                );
            },
        };
        let ghost fbv = filebuilds_view(files@);
        let mut out_files: Vec<PackFile> = Vec::new();
        let ghost mut k: int = 0;
        proof {
            assert(files_view(Seq::<PackFile>::empty()) =~= Seq::<FileView>::empty());
            assert(fbv.take(0) =~= Seq::<FileBuildView>::empty());
            assert(fbv.skip(0) =~= fbv);
        }
        while files.len() > 0
            invariant
                0 <= k <= fbv.len(),
                fbv.len() - k == files@.len(),
                filebuilds_view(files@) =~= fbv.skip(k),
                files_done(fbv.take(k)) == Ok::<Seq<FileView>, ErrorView>(files_view(out_files@)),
                spec_group(spec_line_views(document@), 0, None, Seq::empty()) == Ok::<
                    Seq<SectionView>,
                    ErrorView,
                >(secs),
                spec_build(secs, 0, empty_build()) == spec_finalize(
                    BuildView {
                        meta: Some(modpack@),
                        game: Some(game@),
                        sources: srcs_view(sources@),
                        files: fbv,
                    },
                ),
            decreases files@.len(),
        {
            let fb = files.remove(0);
            proof {
                assert(fb@ == fbv.skip(k)[0]);
                assert(fbv.skip(k)[0] == fbv[k]);
                assert(filebuilds_view(files@) =~= fbv.skip(k).drop_first());
                assert(fbv.skip(k).drop_first() =~= fbv.skip(k + 1));
                assert(fbv.take(k + 1).drop_last() =~= fbv.take(k));
                assert(fbv.take(k + 1).last() == fbv[k]);
            }
            let FileBuild { line, path, sources: fsources, environment, version } = fb;
            let version = match version {
                Some(v) => v,
                None => {
                    proof {
                        lemma_files_done_err(fbv, k + 1);
                    }
                    return Err(
                        AthenaError::Structure {
                            line,
                            kind: StructuralKind::MissingField,
                            name: String::from_str("version"),
                        },
                    );
                },
            };
            let ghost oprev = files_view(out_files@);
            let pf = PackFile { path, sources: fsources, version, environment };
            let ghost pvw = pf@;
            out_files.push(pf);
            proof {
                assert(files_view(out_files@) =~= oprev.push(pvw));
                k = k + 1;
            }
        }
        proof {
            assert(fbv.take(k) =~= fbv);
        }
        let pack = Pack { modpack, game, sources, files: out_files };
        Ok(pack)
    }
}

} // verus!
