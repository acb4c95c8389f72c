//! Properties of the translation, stated and proved once and for all: when
//! the Uniforms record can be synthesized, what the declaration scanner
//! yields, idempotence of the identifier-qualification rewrite, the shape of
//! a rewritten sampling call, and the 2-D default for unscanned textures.

use vstd::prelude::*;
use crate::rewrite::{qualify_one, tex_rewrite_one, tex_type_for, frag_tex_params, metal_spec};
use crate::scan::{scan_decls, well_formed_decl, decl_triple};
use crate::structs::{uniform_fields, uniform_type_text, uniforms_struct_spec};
use crate::text::{
    replace_all, contains_seq, match_at, assoc_last, dec_str, lemma_replace_none,
    lemma_replace_prefix_skip,
};
use crate::types::{DeclCategory, TranslateErrorView, UniformKind};

verus! {

/// The Uniforms record is refused exactly when some metadata entry's kind
/// lies outside the supported set; on every all-supported uniform block the
/// record is synthesized, each field typed by the fixed kind-to-type table.
pub proof fn lemma_uniforms_struct_err_iff_unsupported(us: Seq<(Seq<char>, UniformKind)>)
    ensures
        uniforms_struct_spec(us) is Err <==> exists|i: int|
            0 <= i < us.len() && uniform_type_text(us[i].1) is None,
    decreases us.len(),
{
    if us.len() > 0 {
        lemma_uniforms_struct_err_iff_unsupported(us.skip(1));
        if uniform_type_text(us[0].1) is None {
            assert(uniform_type_text(us[0].1) is None && 0 < us.len());
        } else {
            if uniform_fields(us) is Err {
                assert(uniform_fields(us.skip(1)) is Err);
                let i = choose|i: int|
                    0 <= i < us.skip(1).len() && uniform_type_text(us.skip(1)[i].1) is None;
                assert(us.skip(1)[i] == us[i + 1]);
                assert(uniform_type_text(us[i + 1].1) is None);
            }
            if exists|i: int| 0 <= i < us.len() && uniform_type_text(us[i].1) is None {
                let i = choose|i: int| 0 <= i < us.len() && uniform_type_text(us[i].1) is None;
                assert(i != 0);
                assert(us.skip(1)[i - 1] == us[i]);
                assert(uniform_fields(us.skip(1)) is Err);
            }
        }
    }
}

/// A uniform kind outside the supported set refuses the whole translation:
/// the result is an error, so no output text — no struct text in particular
/// — is ever produced.
pub proof fn lemma_metal_fails_on_unsupported_uniform(
    fragment: Seq<char>,
    vertex: Seq<char>,
    uniforms: Seq<(Seq<char>, UniformKind)>,
    images: Seq<Seq<char>>,
    defines: Seq<Seq<char>>,
)
    requires
        exists|i: int| 0 <= i < uniforms.len() && uniform_type_text(uniforms[i].1) is None,
    ensures
        metal_spec(fragment, vertex, uniforms, images, defines) is Err,
{
    lemma_uniforms_struct_err_iff_unsupported(uniforms);
}

/// The declaration lines of one category, in source order: the lines that
/// contain the category keyword.
pub open spec fn kw_lines(ls: Seq<Seq<char>>, kw: Seq<char>) -> Seq<Seq<char>>
    decreases ls.len(),
{
    if ls.len() == 0 {
        Seq::empty()
    } else if contains_seq(ls[0], kw) {
        seq![ls[0]] + kw_lines(ls.skip(1), kw)
    } else {
        kw_lines(ls.skip(1), kw)
    }
}

/// The scanner is refused exactly when some keyword line does not split into
/// the expected shape; on well-formed input it yields, for every keyword
/// line in source order, the line's scanned (type, name, slot) triple — the
/// mapped type token, the name token, and the slot token.
pub proof fn lemma_scan_decls_characterization(ls: Seq<Seq<char>>, kw: Seq<char>, cat: DeclCategory)
    ensures
        scan_decls(ls, kw, cat) is Err <==> exists|i: int|
            0 <= i < ls.len() && contains_seq(ls[i], kw) && !well_formed_decl(ls[i]),
        scan_decls(ls, kw, cat) matches Ok(ds) ==> ds == kw_lines(ls, kw).map_values(
            |l: Seq<char>| decl_triple(l),
        ),
    decreases ls.len(),
{
    if ls.len() == 0 {
        assert(kw_lines(ls, kw).map_values(|l: Seq<char>| decl_triple(l)) =~= Seq::<
            (Seq<char>, Seq<char>, Option<Seq<char>>),
        >::empty());
    } else {
        lemma_scan_decls_characterization(ls.skip(1), kw, cat);
        let bad_rest = exists|i: int|
            0 <= i < ls.skip(1).len() && contains_seq(ls.skip(1)[i], kw) && !well_formed_decl(
                ls.skip(1)[i],
            );
        let bad_whole = exists|i: int|
            0 <= i < ls.len() && contains_seq(ls[i], kw) && !well_formed_decl(ls[i]);
        if bad_rest {
            let i = choose|i: int|
                0 <= i < ls.skip(1).len() && contains_seq(ls.skip(1)[i], kw) && !well_formed_decl(
                    ls.skip(1)[i],
                );
            assert(ls.skip(1)[i] == ls[i + 1]);
            assert(bad_whole);
        }
        if bad_whole && !(contains_seq(ls[0], kw) && !well_formed_decl(ls[0])) {
            let i = choose|i: int|
                0 <= i < ls.len() && contains_seq(ls[i], kw) && !well_formed_decl(ls[i]);
            assert(i != 0);
            assert(ls.skip(1)[i - 1] == ls[i]);
            assert(bad_rest);
        }
        if scan_decls(ls, kw, cat) is Ok {
            let ds = scan_decls(ls, kw, cat)->Ok_0;
            if contains_seq(ls[0], kw) {
                let rest = scan_decls(ls.skip(1), kw, cat)->Ok_0;
                assert(ds == seq![decl_triple(ls[0])] + rest);
                assert(ds =~= kw_lines(ls, kw).map_values(|l: Seq<char>| decl_triple(l)));
            } else {
                assert(ds =~= kw_lines(ls, kw).map_values(|l: Seq<char>| decl_triple(l)));
            }
        }
    }
}

/// Qualifying the occurrence of an identifier in already-qualified text
/// changes nothing: on a token that the rewrite has already turned into its
/// struct-qualified form, the substitution re-doubles the qualifier and the
/// collapse rule removes the doubling again, so a second run of the rewrite
/// is the identity. Holds whenever the identifier and the qualifier stem are
/// dot-free and the stem does not contain the identifier.
pub proof fn lemma_qualify_idempotent_token(name: Seq<char>, stem: Seq<char>)
    requires
        name.len() > 0,
        stem.len() > 0,
        !name.contains('.'),
        !stem.contains('.'),
        !contains_seq(stem, name),
    ensures
        qualify_one(name, name, stem + seq!['.']) == (stem + seq!['.']) + name,
        qualify_one((stem + seq!['.']) + name, name, stem + seq!['.']) == (stem + seq!['.'])
            + name,
{
    let q = stem + seq!['.'];
    let qn = q + name;
    let qq = q + q;
    // The only dot in `q + name` stands at the end of the stem.
    assert forall|j: int| 0 <= j < qn.len() && qn[j] == '.' implies j == stem.len() by {
        if j < stem.len() {
            assert(qn[j] == stem[j]);
            assert(stem.contains('.'));
        } else if j > stem.len() {
            if j < q.len() {
            } else {
                assert(qn[j] == name[j - q.len()]);
                assert(name.contains('.'));
            }
        }
    }
    // `q + q` never occurs in `q + name`: it would put two dots there.
    assert forall|i: int| !match_at(qn, qq, i) by {
        if match_at(qn, qq, i) {
            assert(qn.subrange(i, i + qq.len() as int) == qq);
            assert(qq[stem.len() as int] == q[stem.len() as int]);
            assert(qq[stem.len() as int] == '.');
            assert(qn[i + stem.len()] == qn.subrange(i, i + qq.len() as int)[stem.len() as int]);
            assert(qn[i + stem.len()] == '.');
            assert(i + stem.len() == stem.len());
            assert(qq[q.len() + stem.len() as int] == q[stem.len() as int]);
            assert(qn[i + q.len() + stem.len()] == qn.subrange(i, i + qq.len() as int)[q.len()
                + stem.len() as int]);
            assert(qn[i + q.len() + stem.len()] == '.');
            assert(i + q.len() + stem.len() == stem.len());
            assert(false);
        }
    }
    // `name` never begins inside the qualifier `q` of `q + name`.
    assert forall|i: int| 0 <= i < q.len() implies !match_at(qn, name, i) by {
        if match_at(qn, name, i) {
            if i + name.len() <= stem.len() {
                assert(stem.subrange(i, i + name.len() as int) =~= qn.subrange(
                    i,
                    i + name.len() as int,
                ));
                assert(match_at(stem, name, i));
                assert(contains_seq(stem, name));
            } else {
                let j = stem.len() - i;
                assert(0 <= j < name.len());
                assert(name[j] == qn.subrange(i, i + name.len() as int)[j]);
                assert(name[j] == qn[stem.len() as int]);
                assert(qn[stem.len() as int] == '.');
                assert(name.contains('.'));
            }
        }
    }
    // First run on the bare token: substitution turns it into `q + name`,
    // and the collapse rule finds nothing to collapse.
    assert(match_at(name, name, 0)) by {
        assert(name.subrange(0, name.len() as int) =~= name);
    }
    assert(name.subrange(0, name.len() as int) =~= name);
    assert(replace_all(name, name, qn) == qn + replace_all(name.skip(name.len() as int), name, qn));
    assert(name.skip(name.len() as int) =~= Seq::<char>::empty());
    assert(replace_all(Seq::<char>::empty(), name, qn) == Seq::<char>::empty());
    assert(replace_all(name, name, qn) =~= qn);
    lemma_replace_none(qn, qq, q);
    assert(qualify_one(name, name, q) == qn);
    // Second run: the substitution doubles the qualifier ...
    lemma_replace_prefix_skip(qn, name, qn, q.len() as int);
    assert(qn.subrange(0, q.len() as int) =~= q);
    assert(qn.skip(q.len() as int) =~= name);
    assert(replace_all(qn, name, qn) == q + (qn + Seq::<char>::empty()));
    let s2 = qq + name;
    assert(replace_all(qn, name, qn) =~= s2);
    // ... and the collapse rule removes exactly that doubling.
    assert(match_at(s2, qq, 0)) by {
        assert(s2.subrange(0, qq.len() as int) =~= qq);
    }
    assert(s2.subrange(0, qq.len() as int) =~= qq);
    assert(replace_all(s2, qq, q) == q + replace_all(s2.skip(qq.len() as int), qq, q));
    assert(s2.skip(qq.len() as int) =~= name);
    assert forall|i: int| !match_at(name, qq, i) by {
        if match_at(name, qq, i) {
            assert(qq[stem.len() as int] == q[stem.len() as int]);
            assert(name[i + stem.len()] == name.subrange(i, i + qq.len() as int)[stem.len() as int]);
            assert(name[i + stem.len()] == '.');
            assert(name.contains('.'));
        }
    }
    lemma_replace_none(name, qq, q);
    assert(qualify_one(qn, name, q) =~= qn);
}

/// A body line that is one already-qualified token is a fixed point of the
/// qualification rewrite: running the rewrite twice equals running it once.
pub proof fn lemma_qualify_idempotent(name: Seq<char>, stem: Seq<char>)
    requires
        name.len() > 0,
        stem.len() > 0,
        !name.contains('.'),
        !stem.contains('.'),
        !contains_seq(stem, name),
    ensures
        qualify_one(qualify_one(name, name, stem + seq!['.']), name, stem + seq!['.'])
            == qualify_one(name, name, stem + seq!['.']),
{
    lemma_qualify_idempotent_token(name, stem);
}

/// A plain 2-D sampling call bound to texture `name` is rewritten into
/// exactly one sample call through the texture's handle and its paired
/// sampler handle, with the call's remaining argument text kept.
pub proof fn lemma_tex_rewrite_sample_2d(name: Seq<char>, rest: Seq<char>)
    requires
        !contains_seq(rest, "texture2D("@ + name),
        !contains_seq(
            (name + ".sample("@ + name + "Smplr"@) + rest,
            "textureCube("@ + name,
        ),
        !contains_seq(
            (name + ".sample("@ + name + "Smplr"@) + rest,
            "textureCubeLod("@ + name,
        ),
    ensures
        tex_rewrite_one("texture2D("@ + name + rest, name) == name + ".sample("@ + name + "Smplr"@
            + rest,
{
    reveal_strlit("texture2D(");
    reveal_strlit("textureCube(");
    reveal_strlit("textureCubeLod(");
    let pat1 = "texture2D("@ + name;
    let pat2 = "textureCube("@ + name;
    let pat3 = "textureCubeLod("@ + name;
    let rep = name + ".sample("@ + name + "Smplr"@;
    let l = "texture2D("@ + name + rest;
    assert(l =~= pat1 + rest);
    assert(match_at(l, pat1, 0)) by {
        assert(l.subrange(0, pat1.len() as int) =~= pat1);
    }
    assert(l.subrange(0, pat1.len() as int) =~= pat1);
    assert(replace_all(l, pat1, rep) == rep + replace_all(l.skip(pat1.len() as int), pat1, rep));
    assert(l.skip(pat1.len() as int) =~= rest);
    lemma_replace_none(rest, pat1, rep);
    assert(replace_all(l, pat1, rep) =~= rep + rest);
    lemma_replace_none(rep + rest, pat2, rep);
    lemma_replace_none(rep + rest, pat3, rep);
    assert(tex_rewrite_one(l, name) =~= rep + rest);
}

/// A cube sampling call bound to texture `name` is rewritten into exactly
/// one sample call through the texture's handle and its paired sampler
/// handle, with the call's remaining argument text kept.
pub proof fn lemma_tex_rewrite_sample_cube(name: Seq<char>, rest: Seq<char>)
    requires
        !contains_seq("textureCube("@ + name + rest, "texture2D("@ + name),
        !contains_seq(rest, "textureCube("@ + name),
        !contains_seq(
            (name + ".sample("@ + name + "Smplr"@) + rest,
            "textureCubeLod("@ + name,
        ),
    ensures
        tex_rewrite_one("textureCube("@ + name + rest, name) == name + ".sample("@ + name
            + "Smplr"@ + rest,
{
    reveal_strlit("texture2D(");
    reveal_strlit("textureCube(");
    reveal_strlit("textureCubeLod(");
    let pat1 = "texture2D("@ + name;
    let pat2 = "textureCube("@ + name;
    let pat3 = "textureCubeLod("@ + name;
    let rep = name + ".sample("@ + name + "Smplr"@;
    let l = "textureCube("@ + name + rest;
    lemma_replace_none(l, pat1, rep);
    assert(l =~= pat2 + rest);
    assert(match_at(l, pat2, 0)) by {
        assert(l.subrange(0, pat2.len() as int) =~= pat2);
    }
    assert(l.subrange(0, pat2.len() as int) =~= pat2);
    assert(replace_all(l, pat2, rep) == rep + replace_all(l.skip(pat2.len() as int), pat2, rep));
    assert(l.skip(pat2.len() as int) =~= rest);
    lemma_replace_none(rest, pat2, rep);
    lemma_replace_none(rep + rest, pat3, rep);
    assert(tex_rewrite_one(l, name) =~= rep + rest);
}

/// A cube sampling call with an explicit level of detail bound to texture
/// `name` is rewritten into exactly one sample call through the texture's
/// handle and its paired sampler handle, with the call's remaining argument
/// text kept.
pub proof fn lemma_tex_rewrite_sample_cube_lod(name: Seq<char>, rest: Seq<char>)
    requires
        !contains_seq("textureCubeLod("@ + name + rest, "texture2D("@ + name),
        !contains_seq("textureCubeLod("@ + name + rest, "textureCube("@ + name),
        !contains_seq(rest, "textureCubeLod("@ + name),
    ensures
        tex_rewrite_one("textureCubeLod("@ + name + rest, name) == name + ".sample("@ + name
            + "Smplr"@ + rest,
{
    reveal_strlit("texture2D(");
    reveal_strlit("textureCube(");
    reveal_strlit("textureCubeLod(");
    let pat1 = "texture2D("@ + name;
    let pat2 = "textureCube("@ + name;
    let pat3 = "textureCubeLod("@ + name;
    let rep = name + ".sample("@ + name + "Smplr"@;
    let l = "textureCubeLod("@ + name + rest;
    lemma_replace_none(l, pat1, rep);
    lemma_replace_none(l, pat2, rep);
    assert(l =~= pat3 + rest);
    assert(match_at(l, pat3, 0)) by {
        assert(l.subrange(0, pat3.len() as int) =~= pat3);
    }
    assert(l.subrange(0, pat3.len() as int) =~= pat3);
    assert(replace_all(l, pat3, rep) == rep + replace_all(l.skip(pat3.len() as int), pat3, rep));
    assert(l.skip(pat3.len() as int) =~= rest);
    lemma_replace_none(rest, pat3, rep);
    assert(tex_rewrite_one(l, name) =~= rep + rest);
}

/// A bound texture name that the fragment stage's sampler scan did not see
/// resolves to the 2-D texture-handle type in the entry-point signature.
pub proof fn lemma_texture_default_2d(name: Seq<char>, table: Seq<(Seq<char>, Seq<char>)>)
    requires
        assoc_last(table, name) is None,
    ensures
        tex_type_for(name, assoc_last(table, name)) == Ok::<Seq<char>, TranslateErrorView>(
            "texture2d"@,
        ),
        frag_tex_params(seq![name], table, 0) == Ok::<Seq<char>, TranslateErrorView>(
            "    "@ + "texture2d"@ + "<float> "@ + name + " [[texture("@ + seq!['0'] + ")]],\n"@
                + "    sampler "@ + name + "Smplr [[sampler("@ + seq!['0'] + ")]]"@,
        ),
{
    let im = seq![name];
    assert(im[0] == name);
    assert(dec_str(0) == seq![seq!['0'][0]]);
    assert(dec_str(0) =~= seq!['0']);
    assert(frag_tex_params(im, table, 1) == Ok::<Seq<char>, TranslateErrorView>(Seq::empty()));
    let line = "    "@ + "texture2d"@ + "<float> "@ + name + " [[texture("@ + dec_str(0)
        + ")]],\n"@ + "    sampler "@ + name + "Smplr [[sampler("@ + dec_str(0) + ")]]"@
        + Seq::<char>::empty();
    assert(frag_tex_params(im, table, 0) == Ok::<Seq<char>, TranslateErrorView>(
        line + Seq::<char>::empty(),
    ));
    assert(line + Seq::<char>::empty() =~= "    "@ + "texture2d"@ + "<float> "@ + name
        + " [[texture("@ + seq!['0'] + ")]],\n"@ + "    sampler "@ + name + "Smplr [[sampler("@
        + seq!['0'] + ")]]"@);
}

} // verus!
