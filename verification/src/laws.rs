//! Format-level laws of the pack grammar, stated and proved once over the
//! spec-level parser that `Pack::parse` is proved to implement.
use vstd::prelude::*;
use crate::ErrorView;
use crate::StructuralKind;
use crate::pack::GameView;
use crate::pack::PackChannel;
use crate::pack::SectionView;
use crate::pack::SourceView;
use crate::pack::VersionView;
use crate::pack::BuildView;
use crate::pack::PackView;
use crate::pack::empty_build;
use crate::pack::find_entry;
use crate::pack::has_src_key;
use crate::pack::insert_src_sorted;
use crate::pack::spec_build;
use crate::pack::spec_group;
use crate::pack::spec_line_views;
use crate::pack::spec_parse_pack;
use crate::pack::get_str;
use crate::pack::req_str;
use crate::pack::spec_sec_file;
use crate::pack::spec_sec_modpack;
use crate::pack::spec_sec_game;
use crate::pack::spec_sec_source;
use crate::pack::spec_sec_version;
use crate::semver_support::semver_req_diag;
use crate::text::lemma_lex_lt_irrefl;
use crate::text::lemma_lex_lt_total;
use crate::text::lemma_lex_lt_trans;
use crate::text::lex_lt;

verus! {

/// Untagged resolution of the game table is deterministic and exhaustive over
/// field presence: a table whose `minecraft` field is a string resolves to
/// Vanilla exactly when neither loader field is present, to Fabric exactly
/// when `fabric-loader` is a string and `forge` is absent, and to Forge
/// exactly when `forge` is a string and `fabric-loader` is absent. A table
/// presenting both loader fields satisfies two shapes and is rejected, never
/// resolved; no table resolves to more than one variant, the three conditions
/// being mutually exclusive.
pub proof fn lemma_game_untagged_resolution(sec: SectionView)
    ensures
        (spec_sec_game(sec) matches Ok(g) && g is Vanilla) <==> (get_str(sec, "minecraft"@) matches Ok(
            Some(_),
        ) && get_str(sec, "fabric-loader"@) == Ok::<Option<(int, Seq<char>)>, ErrorView>(None)
            && get_str(sec, "forge"@) == Ok::<Option<(int, Seq<char>)>, ErrorView>(None)),
        (spec_sec_game(sec) matches Ok(g) && g is Fabric) <==> (get_str(sec, "minecraft"@) matches Ok(
            Some(_),
        ) && (get_str(sec, "fabric-loader"@) matches Ok(Some(_))) && get_str(sec, "forge"@) == Ok::<
            Option<(int, Seq<char>)>,
            ErrorView,
        >(None)),
        (spec_sec_game(sec) matches Ok(g) && g is Forge) <==> (get_str(sec, "minecraft"@) matches Ok(
            Some(_),
        ) && (get_str(sec, "forge"@) matches Ok(Some(_))) && get_str(sec, "fabric-loader"@) == Ok::<
            Option<(int, Seq<char>)>,
            ErrorView,
        >(None)),
        (get_str(sec, "fabric-loader"@) matches Ok(Some(_)) && get_str(sec, "forge"@) matches Ok(
            Some(_),
        )) ==> spec_sec_game(sec) == Err::<GameView, ErrorView>(
            ErrorView::Structure {
                line: sec.line,
                kind: StructuralKind::AmbiguousGame,
                name: "game"@,
            },
        ),
{
}

/// The payloads of the resolved game variants are the field values of the
/// table: resolution never invents or swaps a field.
pub proof fn lemma_game_resolution_payload(
    sec: SectionView,
    mcl: int,
    mc: Seq<char>,
    fll: int,
    fl: Seq<char>,
)
    ensures
        (get_str(sec, "minecraft"@) == Ok::<Option<(int, Seq<char>)>, ErrorView>(Some((mcl, mc)))
            && get_str(sec, "fabric-loader"@) == Ok::<Option<(int, Seq<char>)>, ErrorView>(
            Some((fll, fl)),
        ) && get_str(sec, "forge"@) == Ok::<Option<(int, Seq<char>)>, ErrorView>(None))
            ==> spec_sec_game(sec) == Ok::<GameView, ErrorView>(
            GameView::Fabric { minecraft: mc, fabric_loader: fl },
        ),
        (get_str(sec, "minecraft"@) == Ok::<Option<(int, Seq<char>)>, ErrorView>(Some((mcl, mc)))
            && get_str(sec, "forge"@) == Ok::<Option<(int, Seq<char>)>, ErrorView>(Some((fll, fl)))
            && get_str(sec, "fabric-loader"@) == Ok::<Option<(int, Seq<char>)>, ErrorView>(None))
            ==> spec_sec_game(sec) == Ok::<GameView, ErrorView>(
            GameView::Forge { minecraft: mc, forge: fl },
        ),
        (get_str(sec, "minecraft"@) == Ok::<Option<(int, Seq<char>)>, ErrorView>(Some((mcl, mc)))
            && get_str(sec, "fabric-loader"@) == Ok::<Option<(int, Seq<char>)>, ErrorView>(None)
            && get_str(sec, "forge"@) == Ok::<Option<(int, Seq<char>)>, ErrorView>(None))
            ==> spec_sec_game(sec) == Ok::<GameView, ErrorView>(GameView::Vanilla { minecraft: mc }),
{
}

/// Default application: a `latest` version table without a `channel` field
/// resolves to the Release channel.
pub proof fn lemma_latest_channel_default(sec: SectionView, tline: int)
    requires
        req_str(sec, "type"@) == Ok::<(int, Seq<char>), ErrorView>((tline, "latest"@)),
        find_entry(sec.entries, "channel"@) is None,
    ensures
        spec_sec_version(sec) == Ok::<VersionView, ErrorView>(
            VersionView::Latest { channel: PackChannel::Release },
        ),
{
}

/// Default application: a file table without an `environment` field parses
/// with no environment restriction, which [`crate::pack::PackFile::environment_or_default`]
/// reads as `Both`.
pub proof fn lemma_environment_default(sec: SectionView)
    requires
        find_entry(sec.entries, "environment"@) is None,
    ensures
        spec_sec_file(sec) matches Ok(f) ==> f.environment is None,
{
}

/// Rejection: a source table whose `type` tag is not a recognized tag fails
/// with an `UnknownVariant` error carrying that tag, at the tag's line.
pub proof fn lemma_unknown_source_tag(sec: SectionView, l: int, t: Seq<char>)
    requires
        req_str(sec, "type"@) == Ok::<(int, Seq<char>), ErrorView>((l, t)),
        t != "labrinth.v1"@,
    ensures
        spec_sec_source(sec) == Err::<SourceView, ErrorView>(
            ErrorView::UnknownVariant { line: l, tag: t },
        ),
{
}

/// Rejection: a `semver` version table whose range expression semver's
/// grammar refuses fails with a `ConstraintSyntax` error naming the offending
/// text and the parser's diagnostic, at the expression's line.
pub proof fn lemma_semver_rejection(sec: SectionView, tl: int, vl: int, vtext: Seq<char>, d: Seq<char>)
    requires
        req_str(sec, "type"@) == Ok::<(int, Seq<char>), ErrorView>((tl, "semver"@)),
        req_str(sec, "version"@) == Ok::<(int, Seq<char>), ErrorView>((vl, vtext)),
        semver_req_diag(vtext) == Some(d),
    ensures
        spec_sec_version(sec) == Err::<VersionView, ErrorView>(
            ErrorView::ConstraintSyntax { line: vl, text: vtext, detail: d },
        ),
{
    reveal_strlit("latest");
    reveal_strlit("semver");
    assert("semver"@[0] != "latest"@[0]);
}

/// Source names strictly ascending by code point.
pub open spec fn src_keys_sorted(s: Seq<(Seq<char>, SourceView)>) -> bool {
    forall|i: int, j: int| 0 <= i < j < s.len() ==> lex_lt(#[trigger] s[i].0, #[trigger] s[j].0)
}

proof fn lemma_insert_src_sorted_props(s: Seq<(Seq<char>, SourceView)>, k: Seq<char>, v: SourceView)
    requires
        src_keys_sorted(s),
        !has_src_key(s, k),
    ensures
        src_keys_sorted(insert_src_sorted(s, k, v)),
        forall|j: int|
            0 <= j < insert_src_sorted(s, k, v).len() ==> (#[trigger] insert_src_sorted(s, k, v)[j]
                == (k, v) || s.contains(insert_src_sorted(s, k, v)[j])),
    decreases s.len(),
{
    let r = insert_src_sorted(s, k, v);
    if s.len() == 0 {
        assert(r =~= seq![(k, v)]);
    } else if lex_lt(k, s[0].0) {
        assert(r =~= seq![(k, v)] + s);
        assert forall|i: int, j: int| 0 <= i < j < r.len() implies lex_lt(
            #[trigger] r[i].0,
            #[trigger] r[j].0,
        ) by {
            if i == 0 {
                assert(r[j] == s[j - 1]);
                if j > 1 {
                    assert(lex_lt(s[0].0, s[j - 1].0));
                    lemma_lex_lt_trans(k, s[0].0, s[j - 1].0);
                }
            } else {
                assert(r[i] == s[i - 1]);
                assert(r[j] == s[j - 1]);
            }
        }
        assert forall|j: int| 0 <= j < r.len() implies (#[trigger] r[j] == (k, v) || s.contains(
            r[j],
        )) by {
            if j > 0 {
                assert(r[j] == s[j - 1]);
            }
        }
    } else {
        assert(s[0].0 != k) by {
            assert(s[0] == s[0]);
        }
        lemma_lex_lt_total(k, s[0].0);
        assert(lex_lt(s[0].0, k));
        let s2 = s.drop_first();
        assert(src_keys_sorted(s2)) by {
            assert forall|i: int, j: int| 0 <= i < j < s2.len() implies lex_lt(
                #[trigger] s2[i].0,
                #[trigger] s2[j].0,
            ) by {
                assert(s2[i] == s[i + 1]);
                assert(s2[j] == s[j + 1]);
            }
        }
        assert(!has_src_key(s2, k)) by {
            if has_src_key(s2, k) {
                let w = choose|w: int| 0 <= w < s2.len() && s2[w].0 == k;
                assert(s[w + 1].0 == k);
            }
        }
        lemma_insert_src_sorted_props(s2, k, v);
        let r2 = insert_src_sorted(s2, k, v);
        assert(r =~= seq![s[0]] + r2);
        assert forall|i: int, j: int| 0 <= i < j < r.len() implies lex_lt(
            #[trigger] r[i].0,
            #[trigger] r[j].0,
        ) by {
            if i == 0 {
                assert(r[j] == r2[j - 1]);
                if r2[j - 1] == (k, v) {
                    assert(lex_lt(s[0].0, k));
                } else {
                    assert(s2.contains(r2[j - 1]));
                    let w = choose|w: int| 0 <= w < s2.len() && s2[w] == r2[j - 1];
                    assert(s2[w] == s[w + 1]);
                    assert(lex_lt(s[0].0, s[w + 1].0));
                }
            } else {
                assert(r[i] == r2[i - 1]);
                assert(r[j] == r2[j - 1]);
            }
        }
        assert forall|j: int| 0 <= j < r.len() implies (#[trigger] r[j] == (k, v) || s.contains(
            r[j],
        )) by {
            if j == 0 {
                assert(s[0] == s[0]);
                assert(s.contains(s[0]));
            } else {
                assert(r[j] == r2[j - 1]);
                if r2[j - 1] != (k, v) {
                    assert(s2.contains(r2[j - 1]));
                    let w = choose|w: int| 0 <= w < s2.len() && s2[w] == r2[j - 1];
                    assert(s[w + 1] == r[j]);
                    assert(s.contains(s[w + 1]));
                }
            }
        }
    }
}

proof fn lemma_build_sources_sorted(secs: Seq<SectionView>, i: int, st: BuildView)
    requires
        0 <= i <= secs.len(),
        src_keys_sorted(st.sources),
    ensures
        spec_build(secs, i, st) matches Ok(p) ==> src_keys_sorted(p.sources),
    decreases secs.len() - i,
{
    if i < secs.len() {
        let sec = secs[i];
        if sec.second is None && sec.first == "modpack"@ {
            if !sec.array && st.meta is None {
                match spec_sec_modpack(sec) {
                    Ok(m) => {
                        lemma_build_sources_sorted(
                            secs,
                            i + 1,
                            BuildView {
                                meta: Some(m),
                                game: st.game,
                                sources: st.sources,
                                files: st.files,
                            },
                        );
                    },
                    Err(_) => {},
                }
            }
        } else if sec.second is None && sec.first == "game"@ {
            if !sec.array && st.game is None {
                match spec_sec_game(sec) {
                    Ok(g) => {
                        lemma_build_sources_sorted(
                            secs,
                            i + 1,
                            BuildView {
                                meta: st.meta,
                                game: Some(g),
                                sources: st.sources,
                                files: st.files,
                            },
                        );
                    },
                    Err(_) => {},
                }
            }
        } else if sec.first == "sources"@ && sec.second is Some {
            let name = sec.second->Some_0;
            if !sec.array && !has_src_key(st.sources, name) {
                match spec_sec_source(sec) {
                    Ok(src) => {
                        lemma_insert_src_sorted_props(st.sources, name, src);
                        lemma_build_sources_sorted(
                            secs,
                            i + 1,
                            BuildView {
                                meta: st.meta,
                                game: st.game,
                                sources: insert_src_sorted(st.sources, name, src),
                                files: st.files,
                            },
                        );
                    },
                    Err(_) => {},
                }
            }
        } else if sec.first == "files"@ && sec.second is None {
            if sec.array {
                match spec_sec_file(sec) {
                    Ok(f) => {
                        lemma_build_sources_sorted(
                            secs,
                            i + 1,
                            BuildView {
                                meta: st.meta,
                                game: st.game,
                                sources: st.sources,
                                files: st.files.push(f),
                            },
                        );
                    },
                    Err(_) => {},
                }
            }
        } else if sec.first == "files"@ && sec.second == Some("version"@) {
            if !sec.array && st.files.len() > 0 && st.files.last().version is None {
                match spec_sec_version(sec) {
                    Ok(v) => {
                        lemma_build_sources_sorted(
                            secs,
                            i + 1,
                            BuildView {
                                meta: st.meta,
                                game: st.game,
                                sources: st.sources,
                                files: st.files.update(
                                    st.files.len() - 1,
                                    crate::pack::FileBuildView {
                                        line: st.files.last().line,
                                        path: st.files.last().path,
                                        sources: st.files.last().sources,
                                        environment: st.files.last().environment,
                                        version: Some(v),
                                    },
                                ),
                            },
                        );
                    },
                    Err(_) => {},
                }
            }
        } else {
            lemma_build_sources_sorted(secs, i + 1, st);
        }
    }
}

/// Canonical ordering: the named sources of a parsed pack are strictly sorted
/// by name, so source names are unique and re-serialization of the mapping is
/// stable.
pub proof fn lemma_parse_sources_canonical(s: Seq<char>, p: PackView)
    requires
        spec_parse_pack(s) == Ok::<PackView, ErrorView>(p),
    ensures
        src_keys_sorted(p.sources),
        forall|i: int, j: int|
            0 <= i < j < p.sources.len() ==> (#[trigger] p.sources[i].0) != (
            #[trigger] p.sources[j].0),
{
    match spec_group(spec_line_views(s), 0, None, Seq::empty()) {
        Ok(secs) => {
            lemma_build_sources_sorted(secs, 0, empty_build());
        },
        Err(_) => {},
    }
    assert forall|i: int, j: int| 0 <= i < j < p.sources.len() implies (
    #[trigger] p.sources[i].0) != (#[trigger] p.sources[j].0) by {
        if p.sources[i].0 == p.sources[j].0 {
            assert(lex_lt(p.sources[i].0, p.sources[j].0));
            lemma_lex_lt_irrefl(p.sources[i].0);
        }
    }
}

} // verus!
