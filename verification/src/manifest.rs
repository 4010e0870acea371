//! The distribution-time manifest model and its JSON render path.
//!
//! A manifest is constructed programmatically by an external resolver and
//! rendered once to a JSON document for installers; nothing here reads the
//! format back. Field names are camelCase in the document regardless of the
//! model's naming; absent optional fields render as an explicit `null`; the
//! `files` list and each file's `downloads` list keep their order (download
//! order signals fetch preference), while `dependencies` is an unordered
//! mapping rendered sorted by key for reproducible output.
//!
//! [`ManifestJson::render`] is proved to return exactly the text of the
//! spec-level rendering function [`spec_render_manifest`].
use vstd::prelude::*;
use vstd::string::*;
use crate::text::lex_lt;

verus! {

/// The manifest document root.
#[derive(Debug, PartialEq)]
pub struct ManifestJson {
    pub format_version: u32,
    pub game: String,
    pub version_id: String,
    pub name: String,
    pub summary: Option<String>,
    pub files: Vec<ManifestFile>,
    /// Dependency name to version string; an unordered mapping.
    pub dependencies: Vec<(String, String)>,
}

/// One resolved file of a manifest.
#[derive(Debug, PartialEq)]
pub struct ManifestFile {
    pub path: String,
    pub hashes: ManifestHashes,
    pub env: Option<ManifestEnv>,
    pub downloads: Vec<String>,
}

/// The content hashes of a file; sha1 is the one hash kind.
#[derive(Debug, PartialEq)]
pub struct ManifestHashes {
    pub sha1: String,
}

/// The environment block of a file: arbitrary string tokens, a looser
/// contract than the pack's closed enum.
#[derive(Debug, PartialEq)]
pub struct ManifestEnv {
    pub client: String,
    pub server: String,
}

// ------------------------------------------------------------------
// Views
// ------------------------------------------------------------------
#[verifier::ext_equal]
pub struct ManifestEnvView {
    pub client: Seq<char>,
    pub server: Seq<char>,
}

#[verifier::ext_equal]
pub struct ManifestFileView {
    pub path: Seq<char>,
    pub sha1: Seq<char>,
    pub env: Option<ManifestEnvView>,
    pub downloads: Seq<Seq<char>>,
}

#[verifier::ext_equal]
pub struct ManifestView {
    pub format_version: u32,
    pub game: Seq<char>,
    pub version_id: Seq<char>,
    pub name: Seq<char>,
    pub summary: Option<Seq<char>>,
    pub files: Seq<ManifestFileView>,
    pub dependencies: Seq<(Seq<char>, Seq<char>)>,
}

impl View for ManifestEnv {
    type V = ManifestEnvView;

    open spec fn view(&self) -> ManifestEnvView {
        ManifestEnvView { client: self.client@, server: self.server@ }
    }
}

impl View for ManifestFile {
    type V = ManifestFileView;

    open spec fn view(&self) -> ManifestFileView {
        ManifestFileView {
            path: self.path@,
            sha1: self.hashes.sha1@,
            env: match self.env {
                Some(e) => Some(e@),
                None => None,
            },
            downloads: crate::pack::strs_view(self.downloads@),
        }
    }
}

pub open spec fn mfiles_view(fs: Seq<ManifestFile>) -> Seq<ManifestFileView> {
    fs.map_values(|f: ManifestFile| f@)
}

pub open spec fn deps_view(ds: Seq<(String, String)>) -> Seq<(Seq<char>, Seq<char>)> {
    ds.map_values(|p: (String, String)| (p.0@, p.1@))
}

impl View for ManifestJson {
    type V = ManifestView;

    open spec fn view(&self) -> ManifestView {
        ManifestView {
            format_version: self.format_version,
            game: self.game@,
            version_id: self.version_id@,
            name: self.name@,
            summary: match self.summary {
                Some(s) => Some(s@),
                None => None,
            },
            files: mfiles_view(self.files@),
            dependencies: deps_view(self.dependencies@),
        }
    }
}

// ------------------------------------------------------------------
// The spec-level rendering
// ------------------------------------------------------------------
/// JSON string escaping of one character: quote, backslash and the common
/// control characters get a two-character escape, all else stands as itself.
pub open spec fn json_escape_char(c: char) -> Seq<char> {
    if c == '"' {
        seq!['\\', '"']
    } else if c == '\\' {
        seq!['\\', '\\']
    } else if c == '\n' {
        seq!['\\', 'n']
    } else if c == '\r' {
        seq!['\\', 'r']
    } else if c == '\t' {
        seq!['\\', 't']
    } else {
        seq![c]
    }
}

pub open spec fn json_escape(s: Seq<char>) -> Seq<char>
    decreases s.len(),
{
    if s.len() == 0 {
        Seq::empty()
    } else {
        json_escape_char(s[0]) + json_escape(s.drop_first())
    }
}

/// A JSON string literal: quoted, escaped.
pub open spec fn json_str(s: Seq<char>) -> Seq<char> {
    seq!['"'] + json_escape(s) + seq!['"']
}

pub open spec fn digit_char(d: int) -> char {
    if d == 0 {
        '0'
    } else if d == 1 {
        '1'
    } else if d == 2 {
        '2'
    } else if d == 3 {
        '3'
    } else if d == 4 {
        '4'
    } else if d == 5 {
        '5'
    } else if d == 6 {
        '6'
    } else if d == 7 {
        '7'
    } else if d == 8 {
        '8'
    } else {
        '9'
    }
}

/// The decimal rendering of a nonnegative integer.
pub open spec fn dec_str(n: int) -> Seq<char>
    decreases n,
    when 0 <= n
{
    if n < 10 {
        seq![digit_char(n)]
    } else {
        dec_str(n / 10).push(digit_char(n % 10))
    }
}

/// The items of a JSON array of strings, from index `i` on, comma-separated.
pub open spec fn render_str_items(items: Seq<Seq<char>>, i: int) -> Seq<char>
    decreases items.len() - i,
    when 0 <= i <= items.len()
{
    if i == items.len() {
        Seq::empty()
    } else {
        (if i > 0 {
            seq![',']
        } else {
            Seq::empty()
        }) + json_str(items[i]) + render_str_items(items, i + 1)
    }
}

pub open spec fn json_str_array(items: Seq<Seq<char>>) -> Seq<char> {
    seq!['['] + render_str_items(items, 0) + seq![']']
}

/// An optional string: `null` where absent, never an empty string.
pub open spec fn render_opt_str(o: Option<Seq<char>>) -> Seq<char> {
    match o {
        None => "null"@,
        Some(s) => json_str(s),
    }
}

/// An optional environment block: `null` where absent.
pub open spec fn render_env(e: Option<ManifestEnvView>) -> Seq<char> {
    match e {
        None => "null"@,
        Some(env) => "{\"client\":"@ + json_str(env.client) + ",\"server\":"@ + json_str(
            env.server,
        ) + seq!['}'],
    }
}

/// One file object, keys in fixed order.
pub open spec fn render_file(f: ManifestFileView) -> Seq<char> {
    "{\"path\":"@ + json_str(f.path) + ",\"hashes\":{\"sha1\":"@ + json_str(f.sha1)
        + "},\"env\":"@ + render_env(f.env) + ",\"downloads\":"@ + json_str_array(f.downloads)
        + seq!['}']
}

/// The file objects from index `i` on, comma-separated, in sequence order.
pub open spec fn render_file_items(fs: Seq<ManifestFileView>, i: int) -> Seq<char>
    decreases fs.len() - i,
    when 0 <= i <= fs.len()
{
    if i == fs.len() {
        Seq::empty()
    } else {
        (if i > 0 {
            seq![',']
        } else {
            Seq::empty()
        }) + render_file(fs[i]) + render_file_items(fs, i + 1)
    }
}

/// Insert a dependency into a sequence sorted by key; an equal key goes after
/// the ones already there.
pub open spec fn insert_dep_sorted(
    s: Seq<(Seq<char>, Seq<char>)>,
    k: Seq<char>,
    v: Seq<char>,
) -> Seq<(Seq<char>, Seq<char>)>
    decreases s.len(),
{
    if s.len() == 0 {
        seq![(k, v)]
    } else if lex_lt(k, s[0].0) {
        seq![(k, v)] + s
    } else {
        seq![s[0]] + insert_dep_sorted(s.drop_first(), k, v)
    }
}

/// The canonical order of the dependency mapping: sorted by key.
pub open spec fn sort_deps(ds: Seq<(Seq<char>, Seq<char>)>) -> Seq<(Seq<char>, Seq<char>)>
    decreases ds.len(),
{
    if ds.len() == 0 {
        Seq::empty()
    } else {
        insert_dep_sorted(sort_deps(ds.drop_last()), ds.last().0, ds.last().1)
    }
}

/// The dependency entries from index `i` on, comma-separated.
pub open spec fn render_dep_items(ds: Seq<(Seq<char>, Seq<char>)>, i: int) -> Seq<char>
    decreases ds.len() - i,
    when 0 <= i <= ds.len()
{
    if i == ds.len() {
        Seq::empty()
    } else {
        (if i > 0 {
            seq![',']
        } else {
            Seq::empty()
        }) + json_str(ds[i].0) + seq![':'] + json_str(ds[i].1) + render_dep_items(ds, i + 1)
    }
}

/// The whole manifest document: one JSON object with camelCase keys in fixed
/// order; `files` and `downloads` keep sequence order, `dependencies` is
/// rendered sorted by key.
pub open spec fn spec_render_manifest(m: ManifestView) -> Seq<char> {
    "{\"formatVersion\":"@ + dec_str(m.format_version as int) + ",\"game\":"@ + json_str(m.game)
        + ",\"versionId\":"@ + json_str(m.version_id) + ",\"name\":"@ + json_str(m.name)
        + ",\"summary\":"@ + render_opt_str(m.summary) + ",\"files\":["@ + render_file_items(
        m.files,
        0,
    ) + "],\"dependencies\":{"@ + render_dep_items(sort_deps(m.dependencies), 0) + "}}"@
}

// ------------------------------------------------------------------
// Executable rendering, proved equal to the spec
// ------------------------------------------------------------------
proof fn lemma_json_escape_push(a: Seq<char>, c: char)
    ensures
        json_escape(a.push(c)) == json_escape(a) + json_escape_char(c),
    decreases a.len(),
{
    if a.len() == 0 {
        assert(a.push(c)[0] == c);
        assert(a.push(c).drop_first() =~= Seq::<char>::empty());
        assert(a.push(c).len() == 1);
        assert(json_escape(a.push(c)) == json_escape_char(c) + json_escape(
            Seq::<char>::empty(),
        ));
        assert(json_escape_char(c) + Seq::<char>::empty() =~= json_escape_char(c));
        assert(json_escape(a) + json_escape_char(c) =~= json_escape_char(c));
    } else {
        assert(a.push(c).drop_first() =~= a.drop_first().push(c));
        lemma_json_escape_push(a.drop_first(), c);
        assert(a.push(c)[0] == a[0]);
        assert(json_escape(a.push(c)) =~= json_escape(a) + json_escape_char(c));
    }
}

/// Append the JSON string literal for `s` to `out`.
fn push_json_str(out: &mut String, s: &str)
    ensures
        final(out)@ == old(out)@ + json_str(s@),
{
    let ghost base = out@;
    out.push('"');
    let n = s.unicode_len();
    let mut i: usize = 0;
    proof {
        assert(s@.take(0) =~= Seq::<char>::empty());
        assert(out@ =~= base + seq!['"'] + json_escape(s@.take(0)));
    }
    while i < n
        invariant
            i <= n,
            n == s@.len(),
            out@ == base + seq!['"'] + json_escape(s@.take(i as int)),
        decreases n - i,
    {
        let c = s.get_char(i);
        if c == '"' {
            out.append("\\\"");
        } else if c == '\\' {
            out.append("\\\\");
        } else if c == '\n' {
            out.append("\\n");
        } else if c == '\r' {
            out.append("\\r");
        } else if c == '\t' {
            out.append("\\t");
        } else {
            out.push(c);
        }
        proof {
            lemma_json_escape_push(s@.take(i as int), c);
            assert(s@.take(i as int).push(c) =~= s@.take(i as int + 1));
            reveal_strlit("\\\"");
            reveal_strlit("\\\\");
            reveal_strlit("\\n");
            reveal_strlit("\\r");
            reveal_strlit("\\t");
            assert("\\\""@ =~= seq!['\\', '"']);
            assert("\\\\"@ =~= seq!['\\', '\\']);
            assert("\\n"@ =~= seq!['\\', 'n']);
            assert("\\r"@ =~= seq!['\\', 'r']);
            assert("\\t"@ =~= seq!['\\', 't']);
            assert(out@ =~= base + seq!['"'] + json_escape(s@.take(i as int + 1)));
        }
        i = i + 1;
    }
    out.push('"');
    proof {
        assert(s@.take(n as int) =~= s@);
        assert(out@ =~= base + json_str(s@));
    }
}

fn digit_char_x(d: u32) -> (r: char)
    requires
        d < 10,
    ensures
        r == digit_char(d as int),
{
    if d == 0 {
        '0'
    } else if d == 1 {
        '1'
    } else if d == 2 {
        '2'
    } else if d == 3 {
        '3'
    } else if d == 4 {
        '4'
    } else if d == 5 {
        '5'
    } else if d == 6 {
        '6'
    } else if d == 7 {
        '7'
    } else if d == 8 {
        '8'
    } else {
        '9'
    }
}

fn dec_str_x(n: u32) -> (r: String)
    ensures
        r@ == dec_str(n as int),
    decreases n,
{
    if n < 10 {
        let mut s = String::new();
        s.push(digit_char_x(n));
        proof {
            assert(s@ =~= seq![digit_char(n as int)]);
        }
        s
    } else {
        let mut s = dec_str_x(n / 10);
        s.push(digit_char_x(n % 10));
        s
    }
}

/// Append the JSON array of the strings in `items`, in order.
fn push_str_array(out: &mut String, items: &Vec<String>)
    ensures
        final(out)@ == old(out)@ + json_str_array(crate::pack::strs_view(items@)),
{
    let ghost base = out@;
    let ghost iv = crate::pack::strs_view(items@);
    out.append("[");
    proof {
        reveal_strlit("[");
        assert("["@ =~= seq!['[']);
    }
    let mut i: usize = 0;
    while i < items.len()
        invariant
            i <= items@.len(),
            iv == crate::pack::strs_view(items@),
            iv.len() == items@.len(),
            base + seq!['['] + render_str_items(iv, 0) == out@ + render_str_items(iv, i as int),
        decreases items@.len() - i,
    {
        proof {
            assert(iv[i as int] == items@[i as int]@);
        }
        if i > 0 {
            out.append(",");
            proof {
                reveal_strlit(",");
                assert(","@ =~= seq![',']);
            }
        }
        push_json_str(out, items[i].as_str());
        proof {
            assert(render_str_items(iv, i as int) =~= (if i > 0 {
                seq![',']
            } else {
                Seq::<char>::empty()
            }) + json_str(iv[i as int]) + render_str_items(iv, i as int + 1));
        }
        i = i + 1;
    }
    out.append("]");
    proof {
        reveal_strlit("]");
        assert("]"@ =~= seq![']']);
        assert(render_str_items(iv, iv.len() as int) =~= Seq::<char>::empty());
        assert(out@ =~= base + json_str_array(iv));
    }
}

/// Append one file object.
fn push_file(out: &mut String, f: &ManifestFile)
    ensures
        final(out)@ == old(out)@ + render_file(f@),
{
    let ghost base = out@;
    out.append("{\"path\":");
    push_json_str(out, f.path.as_str());
    out.append(",\"hashes\":{\"sha1\":");
    push_json_str(out, f.hashes.sha1.as_str());
    out.append("},\"env\":");
    match &f.env {
        None => {
            out.append("null");
        },
        Some(env) => {
            out.append("{\"client\":");
            push_json_str(out, env.client.as_str());
            out.append(",\"server\":");
            push_json_str(out, env.server.as_str());
            out.append("}");
            proof {
                reveal_strlit("}");
                assert("}"@ =~= seq!['}']);
            }
        },
    }
    out.append(",\"downloads\":");
    push_str_array(out, &f.downloads);
    out.append("}");
    proof {
        reveal_strlit("}");
        assert("}"@ =~= seq!['}']);
        assert(out@ =~= base + render_file(f@));
    }
}

fn clone_dep(p: &(String, String)) -> (r: (String, String))
    ensures
        r.0@ == p.0@,
        r.1@ == p.1@,
{
    (p.0.clone(), p.1.clone())
}

fn insert_dep_x(v: Vec<(String, String)>, k: String, val: String) -> (r: Vec<(String, String)>)
    ensures
        deps_view(r@) == insert_dep_sorted(deps_view(v@), k@, val@),
    decreases v@.len(),
{
    let ghost vv = deps_view(v@);
    let ghost kv = k@;
    let ghost valv = val@;
    if v.len() == 0 {
        let mut out: Vec<(String, String)> = Vec::new();
        out.push((k, val));
        proof {
            assert(deps_view(out@) =~= seq![(kv, valv)]);
        }
        out
    } else if crate::text::str_lt_x(k.as_str(), v[0].0.as_str()) {
        let mut v = v;
        v.insert(0, (k, val));
        proof {
            assert(deps_view(v@) =~= seq![(kv, valv)] + vv);
        }
        v
    } else {
        let mut v = v;
        let first = v.remove(0);
        let ghost fv = (first.0@, first.1@);
        proof {
            assert(deps_view(v@) =~= vv.drop_first());
            assert(fv == vv[0]);
        }
        let mut rest = insert_dep_x(v, k, val);
        rest.insert(0, first);
        proof {
            assert(deps_view(rest@) =~= seq![fv] + insert_dep_sorted(vv.drop_first(), kv, valv));
        }
        rest
    }
}

fn sort_deps_x(ds: &Vec<(String, String)>) -> (r: Vec<(String, String)>)
    ensures
        deps_view(r@) == sort_deps(deps_view(ds@)),
{
    let mut out: Vec<(String, String)> = Vec::new();
    proof {
        assert(deps_view(Seq::<(String, String)>::empty()) =~= Seq::<(Seq<char>, Seq<char>)>::empty());
        assert(deps_view(ds@).take(0) =~= Seq::<(Seq<char>, Seq<char>)>::empty());
        assert(sort_deps(deps_view(ds@).take(0)) =~= Seq::<(Seq<char>, Seq<char>)>::empty());
    }
    let mut i: usize = 0;
    while i < ds.len()
        invariant
            i <= ds@.len(),
            deps_view(out@) == sort_deps(deps_view(ds@).take(i as int)),
        decreases ds@.len() - i,
    {
        let p = clone_dep(&ds[i]);
        out = insert_dep_x(out, p.0, p.1);
        proof {
            assert(deps_view(ds@).take(i as int + 1).drop_last() =~= deps_view(ds@).take(i as int));
            assert(deps_view(ds@).take(i as int + 1).last() == deps_view(ds@)[i as int]);
            assert(deps_view(ds@)[i as int] == (ds@[i as int].0@, ds@[i as int].1@));
        }
        i = i + 1;
    }
    proof {
        assert(deps_view(ds@).take(ds@.len() as int) =~= deps_view(ds@));
    }
    out
}

impl ManifestJson {
    /// Render the manifest to its JSON document.
    ///
    /// A pure function of the value: the result is exactly the text of
    /// [`spec_render_manifest`] on the manifest's view. Every value of the
    /// model is representable, so rendering cannot fail.
    pub fn render(&self) -> (r: String)
        ensures
            r@ == spec_render_manifest(self@),
    {
        let mut out = String::new();
        out.append("{\"formatVersion\":");
        let num = dec_str_x(self.format_version);
        out.append(num.as_str());
        out.append(",\"game\":");
        push_json_str(&mut out, self.game.as_str());
        out.append(",\"versionId\":");
        push_json_str(&mut out, self.version_id.as_str());
        out.append(",\"name\":");
        push_json_str(&mut out, self.name.as_str());
        out.append(",\"summary\":");
        match &self.summary {
            None => {
                out.append("null");
            },
            Some(s) => {
                push_json_str(&mut out, s.as_str());
            },
        }
        out.append(",\"files\":[");
        let ghost fv = mfiles_view(self.files@);
        let ghost base = out@;
        let mut i: usize = 0;
        while i < self.files.len()
            invariant
                i <= self.files@.len(),
                fv == mfiles_view(self.files@),
                fv.len() == self.files@.len(),
                base + render_file_items(fv, 0) == out@ + render_file_items(fv, i as int),
            decreases self.files@.len() - i,
        {
            proof {
                assert(fv[i as int] == self.files@[i as int]@);
            }
            if i > 0 {
                out.append(",");
                proof {
                    reveal_strlit(",");
                    assert(","@ =~= seq![',']);
                }
            }
            push_file(&mut out, &self.files[i]);
            proof {
                assert(render_file_items(fv, i as int) =~= (if i > 0 {
                    seq![',']
                } else {
                    Seq::<char>::empty()
                }) + render_file(fv[i as int]) + render_file_items(fv, i as int + 1));
            }
            i = i + 1;
        }
        proof {
            assert(render_file_items(fv, fv.len() as int) =~= Seq::<char>::empty());
        }
        out.append("],\"dependencies\":{");
        let sorted = sort_deps_x(&self.dependencies);
        let ghost dv = deps_view(sorted@);
        let ghost base2 = out@;
        let mut j: usize = 0;
        while j < sorted.len()
            invariant
                j <= sorted@.len(),
                dv == deps_view(sorted@),
                dv.len() == sorted@.len(),
                base2 + render_dep_items(dv, 0) == out@ + render_dep_items(dv, j as int),
            decreases sorted@.len() - j,
        {
            proof {
                assert(dv[j as int] == (sorted@[j as int].0@, sorted@[j as int].1@));
            }
            if j > 0 {
                out.append(",");
                proof {
                    reveal_strlit(",");
                    assert(","@ =~= seq![',']);
                }
            }
            push_json_str(&mut out, sorted[j].0.as_str());
            out.append(":");
            proof {
                reveal_strlit(":");
                assert(":"@ =~= seq![':']);
            }
            push_json_str(&mut out, sorted[j].1.as_str());
            proof {
                assert(render_dep_items(dv, j as int) =~= (if j > 0 {
                    seq![',']
                } else {
                    Seq::<char>::empty()
                }) + json_str(dv[j as int].0) + seq![':'] + json_str(dv[j as int].1)
                    + render_dep_items(dv, j as int + 1));
            }
            j = j + 1;
        }
        proof {
            assert(render_dep_items(dv, dv.len() as int) =~= Seq::<char>::empty());
        }
        out.append("}}");
        proof {
            assert(out@ =~= spec_render_manifest(self@));
        }
        out
    }
}

} // verus!
