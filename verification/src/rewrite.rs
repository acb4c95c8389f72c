//! The body rewriter: a line-oriented pass over each shader stage that drops
//! declaration lines, emits the target entry-point signature at the stage's
//! entry-point marker, and rewrites every body line — struct-qualifying
//! identifiers, mapping type and builtin names, and rewriting
//! texture-sampling calls — plus the top-level translation that strings the
//! whole pipeline together.

use vstd::prelude::*;
use crate::mapper::{map_types, map_types_chars, map_functions, map_functions_chars};
use crate::scan::{
    scan_decls_chars, sampler_table_spec, sampler_table_chars, decls_view, table_view, Decl,
};
use crate::structs::{
    uniforms_struct_spec, vertex_struct_spec, raster_struct_spec,
    names_of, field_lines_chars, uniform_fields_chars,
};
use crate::text::{
    replace_all, contains_seq, match_at, assoc_last, dec_str, lines_of, replace_chars,
    contains_chars, starts_with_chars, chars_of, string_from_chars, copy_chars, concat_chars,
    append_chars, append_str, lines_chars, dec_chars, eq_chars, lemma_deep_index,
    lemma_deep_push, lemma_deep_index_str,
};
use crate::types::{
    DeclCategory, ShaderMeta, TranslateError, TranslateErrorView, UniformDesc, UniformKind,
    uniforms_seq,
};

verus! {

/// The names of the metadata uniforms, in metadata order.
pub open spec fn uniform_names(us: Seq<(Seq<char>, UniformKind)>) -> Seq<Seq<char>> {
    us.map_values(|p: (Seq<char>, UniformKind)| p.0)
}

/// One identifier qualified: every occurrence of `name` becomes the
/// struct-qualified field access `q + name`, and the defensive collapse rule
/// removes any doubled qualifier that the substitution produced.
pub open spec fn qualify_one(l: Seq<char>, name: Seq<char>, q: Seq<char>) -> Seq<char> {
    replace_all(replace_all(l, name, q + name), q + q, q)
}

/// Qualifies each name of `names` in turn, in the fixed registration order.
pub open spec fn qualify_all(l: Seq<char>, names: Seq<Seq<char>>, q: Seq<char>) -> Seq<char>
    decreases names.len(),
{
    if names.len() == 0 {
        l
    } else {
        qualify_all(qualify_one(l, names[0], q), names.skip(1), q)
    }
}

/// Rewrites the three legacy sampling call forms bound to the texture
/// `name` into the target dialect's sample-through-bound-sampler call.
pub open spec fn tex_rewrite_one(l: Seq<char>, name: Seq<char>) -> Seq<char> {
    let rep = name + ".sample("@ + name + "Smplr"@;
    replace_all(
        replace_all(replace_all(l, "texture2D("@ + name, rep), "textureCube("@ + name, rep),
        "textureCubeLod("@ + name,
        rep,
    )
}

/// Rewrites the sampling calls of every bound texture, in binding order.
pub open spec fn tex_rewrite_all(l: Seq<char>, images: Seq<Seq<char>>) -> Seq<char>
    decreases images.len(),
{
    if images.len() == 0 {
        l
    } else {
        tex_rewrite_all(tex_rewrite_one(l, images[0]), images.skip(1))
    }
}

/// The `#define` lines requested by the caller, one per symbol, in order.
pub open spec fn define_lines(defines: Seq<Seq<char>>) -> Seq<char>
    decreases defines.len(),
{
    if defines.len() == 0 {
        Seq::empty()
    } else {
        "#define "@ + defines[0] + " 1\n"@ + define_lines(defines.skip(1))
    }
}

/// The fixed output header: standard-library include, namespace pragma, the
/// requested defines, the two matrix-construction helpers, and the
/// mip-level-option macro.
pub open spec fn header_text(defines: Seq<Seq<char>>) -> Seq<char> {
    "#include <metal_stdlib>\nusing namespace metal;\n"@ + define_lines(defines)
        + "float3x3 sm_to_m3(float3 v0, float3 v1, float3 v2) {return float3x3(v0, v1, v2);}\n"@
        + "float3x3 sm_to_m3(float4x4 m) {return float3x3(m[0].xyz, m[1].xyz, m[2].xyz);}\n"@
        + "#define sm_level(x) level(x)\n"@
}

/// The vertex entry point's signature and local output declaration.
pub open spec fn vertex_sig_text() -> Seq<char> {
    "vertex RasterizerData vertexShader(\n    Vertex v [[stage_in]],\n    constant Uniforms& uniforms [[buffer(0)]]\n) {\n    RasterizerData msl_vertex_out;\n"@
}

/// A raw line transformed as the preamble of either stage transforms it:
/// matrix-constructor rewrite, then type mapping.
pub open spec fn pre_line(l: Seq<char>) -> Seq<char> {
    map_types(replace_all(l, "mat3("@, "sm_to_m3("@))
}

/// A vertex body line fully rewritten: preamble transforms, attribute,
/// uniform and output qualification, then the clip-position pseudo-variable
/// renamed to the local output variable.
pub open spec fn vertex_body_line(
    l: Seq<char>,
    attrs: Seq<Seq<char>>,
    unis: Seq<Seq<char>>,
    outs: Seq<Seq<char>>,
) -> Seq<char> {
    replace_all(
        qualify_all(
            qualify_all(qualify_all(pre_line(l), attrs, "v."@), unis, "uniforms."@),
            outs,
            "msl_vertex_out."@,
        ),
        "gl_Position"@,
        "msl_vertex_out.position"@,
    )
}

/// Whether a raw line is a declaration line that the rewriter drops.
pub open spec fn is_decl_line(l: Seq<char>) -> bool {
    contains_seq(l, "uniform"@) || contains_seq(l, "attribute"@) || contains_seq(l, "varying"@)
}

/// The vertex stage's body pass over its remaining lines, starting in the
/// given state: declaration lines are dropped, the entry-point marker emits
/// the signature and enters the body, and body lines are rewritten, with an
/// explicit return emitted before the entry point's closing brace.
pub open spec fn vertex_body_spec(
    ls: Seq<Seq<char>>,
    in_main: bool,
    attrs: Seq<Seq<char>>,
    unis: Seq<Seq<char>>,
    outs: Seq<Seq<char>>,
) -> Seq<char>
    decreases ls.len(),
{
    if ls.len() == 0 {
        Seq::empty()
    } else if is_decl_line(ls[0]) {
        vertex_body_spec(ls.skip(1), in_main, attrs, unis, outs)
    } else if contains_seq(ls[0], "void main()"@) {
        vertex_sig_text() + vertex_body_spec(ls.skip(1), true, attrs, unis, outs)
    } else if in_main {
        let b = vertex_body_line(ls[0], attrs, unis, outs);
        let pre: Seq<char> = if match_at(b, "}"@, 0) {
            "return msl_vertex_out;\n"@
        } else {
            Seq::empty()
        };
        pre + b + "\n"@ + vertex_body_spec(ls.skip(1), true, attrs, unis, outs)
    } else {
        pre_line(ls[0]) + "\n"@ + vertex_body_spec(ls.skip(1), false, attrs, unis, outs)
    }
}

/// The target texture-handle type for a bound texture, from its scanned
/// sampler-type spelling; an unscanned name defaults to the 2-D handle, and
/// a sampler kind that is neither 2-D nor cube is an error.
pub open spec fn tex_type_for(name: Seq<char>, t: Option<Seq<char>>) -> Result<
    Seq<char>,
    TranslateErrorView,
> {
    match t {
        None => Ok("texture2d"@),
        Some(ty) => if ty == "sampler2D"@ {
            Ok("texture2d"@)
        } else if ty == "samplerCube"@ {
            Ok("texturecube"@)
        } else {
            Err(TranslateErrorView::UnsupportedSamplerKind { name: name, sampler_type: ty })
        },
    }
}

/// The texture and sampler parameters of the fragment signature, one pair
/// per bound texture from index `i` on, each slot annotation equal to the
/// texture's position in binding order.
pub open spec fn frag_tex_params(
    images: Seq<Seq<char>>,
    table: Seq<(Seq<char>, Seq<char>)>,
    i: int,
) -> Result<Seq<char>, TranslateErrorView>
    decreases images.len() - i,
{
    if i < 0 || i >= images.len() {
        Ok(Seq::empty())
    } else {
        let name = images[i];
        match tex_type_for(name, assoc_last(table, name)) {
            Err(e) => Err(e),
            Ok(t) => {
                let sep: Seq<char> = if i + 1 < images.len() {
                    ",\n"@
                } else {
                    Seq::empty()
                };
                let line = "    "@ + t + "<float> "@ + name + " [[texture("@ + dec_str(i as nat)
                    + ")]],\n"@ + "    sampler "@ + name + "Smplr [[sampler("@ + dec_str(i as nat)
                    + ")]]"@ + sep;
                match frag_tex_params(images, table, i + 1) {
                    Ok(rest) => Ok(line + rest),
                    Err(e) => Err(e),
                }
            },
        }
    }
}

/// The fragment entry point's signature and local output declaration.
pub open spec fn frag_sig_spec(images: Seq<Seq<char>>, table: Seq<(Seq<char>, Seq<char>)>) -> Result<
    Seq<char>,
    TranslateErrorView,
> {
    match frag_tex_params(images, table, 0) {
        Ok(params) => Ok(
            "fragment float4 fragmentShader(\n    RasterizerData in[[stage_in]],\n    constant Uniforms& uniforms [[buffer(0)]],\n"@
                + params + ") {\n    float4 msl_out_color;\n"@,
        ),
        Err(e) => Err(e),
    }
}

/// A fragment body line fully rewritten: preamble transforms plus builtin
/// mapping, uniform and input qualification, the fragment-color
/// pseudo-variable renamed to the local output variable, and
/// texture-sampling call rewriting. Fragment bodies reference varyings and
/// uniforms only, so attribute names are left alone.
pub open spec fn fragment_body_line(
    l: Seq<char>,
    unis: Seq<Seq<char>>,
    outs: Seq<Seq<char>>,
    images: Seq<Seq<char>>,
) -> Seq<char> {
    tex_rewrite_all(
        replace_all(
            qualify_all(
                qualify_all(map_functions(pre_line(l)), unis, "uniforms."@),
                outs,
                "in."@,
            ),
            "gl_FragColor"@,
            "msl_out_color"@,
        ),
        images,
    )
}

/// The fragment stage's body pass, as the vertex stage's, but with the
/// fragment signature (which may refuse a sampler kind) at the entry-point
/// marker and the fragment line rewrite in the body.
pub open spec fn fragment_body_spec(
    ls: Seq<Seq<char>>,
    in_main: bool,
    unis: Seq<Seq<char>>,
    outs: Seq<Seq<char>>,
    images: Seq<Seq<char>>,
    table: Seq<(Seq<char>, Seq<char>)>,
) -> Result<Seq<char>, TranslateErrorView>
    decreases ls.len(),
{
    if ls.len() == 0 {
        Ok(Seq::empty())
    } else if is_decl_line(ls[0]) {
        fragment_body_spec(ls.skip(1), in_main, unis, outs, images, table)
    } else if contains_seq(ls[0], "void main()"@) {
        match frag_sig_spec(images, table) {
            Err(e) => Err(e),
            Ok(sig) => match fragment_body_spec(ls.skip(1), true, unis, outs, images, table) {
                Ok(rest) => Ok(sig + rest),
                Err(e) => Err(e),
            },
        }
    } else if in_main {
        let b = fragment_body_line(ls[0], unis, outs, images);
        let pre: Seq<char> = if match_at(b, "}"@, 0) {
            "return msl_out_color;\n"@
        } else {
            Seq::empty()
        };
        match fragment_body_spec(ls.skip(1), true, unis, outs, images, table) {
            Ok(rest) => Ok(pre + b + "\n"@ + rest),
            Err(e) => Err(e),
        }
    } else {
        let b = map_functions(pre_line(ls[0]));
        match fragment_body_spec(ls.skip(1), false, unis, outs, images, table) {
            Ok(rest) => Ok(b + "\n"@ + rest),
            Err(e) => Err(e),
        }
    }
}

/// Qualifies one identifier in a line.
fn qualify_one_chars(l: &Vec<char>, name: &Vec<char>, q: &Vec<char>) -> (r: Vec<char>)
    ensures
        r@ == qualify_one(l@, name@, q@),
{
    let qn = concat_chars(q, name);
    let l1 = replace_chars(l, name, &qn);
    let qq = concat_chars(q, q);
    replace_chars(&l1, &qq, q)
}

/// Qualifies each name of `names` in turn.
fn qualify_all_chars(l: &Vec<char>, names: &Vec<Vec<char>>, q: &Vec<char>) -> (r: Vec<char>)
    ensures
        r@ == qualify_all(l@, names.deep_view(), q@),
{
    let ghost ns = names.deep_view();
    let mut cur = copy_chars(l);
    let mut j: usize = 0;
    proof {
        assert(ns.skip(0) =~~= ns);
    }
    while j < names.len()
        invariant
            j <= names.len(),
            ns == names.deep_view(),
            ns.len() == names@.len(),
            qualify_all(l@, ns, q@) == qualify_all(cur@, ns.skip(j as int), q@),
        decreases names.len() - j,
    {
        proof {
            lemma_deep_index(names, j as int);
            assert(ns.skip(j as int)[0] == ns[j as int]);
            assert(ns.skip(j as int).skip(1) =~~= ns.skip(j + 1));
        }
        cur = qualify_one_chars(&cur, &names[j], q);
        j = j + 1;
    }
    proof {
        assert(ns.skip(ns.len() as int) =~~= Seq::<Seq<char>>::empty());
    }
    cur
}

/// Rewrites the three sampling call forms of one bound texture.
fn tex_rewrite_one_chars(l: &Vec<char>, name: &Vec<char>) -> (r: Vec<char>)
    ensures
        r@ == tex_rewrite_one(l@, name@),
{
    let mut rep = copy_chars(name);
    append_str(&mut rep, ".sample(");
    append_chars(&mut rep, name);
    append_str(&mut rep, "Smplr");
    proof {
        assert(rep@ =~= name@ + ".sample("@ + name@ + "Smplr"@);
    }
    let mut p1 = chars_of("texture2D(");
    append_chars(&mut p1, name);
    let l1 = replace_chars(l, &p1, &rep);
    let mut p2 = chars_of("textureCube(");
    append_chars(&mut p2, name);
    let l2 = replace_chars(&l1, &p2, &rep);
    let mut p3 = chars_of("textureCubeLod(");
    append_chars(&mut p3, name);
    replace_chars(&l2, &p3, &rep)
}

/// Rewrites the sampling calls of every bound texture, in binding order.
fn tex_rewrite_all_chars(l: &Vec<char>, images: &Vec<Vec<char>>) -> (r: Vec<char>)
    ensures
        r@ == tex_rewrite_all(l@, images.deep_view()),
{
    let ghost im = images.deep_view();
    let mut cur = copy_chars(l);
    let mut j: usize = 0;
    proof {
        assert(im.skip(0) =~~= im);
    }
    while j < images.len()
        invariant
            j <= images.len(),
            im == images.deep_view(),
            im.len() == images@.len(),
            tex_rewrite_all(l@, im) == tex_rewrite_all(cur@, im.skip(j as int)),
        decreases images.len() - j,
    {
        proof {
            lemma_deep_index(images, j as int);
            assert(im.skip(j as int)[0] == im[j as int]);
            assert(im.skip(j as int).skip(1) =~~= im.skip(j + 1));
        }
        cur = tex_rewrite_one_chars(&cur, &images[j]);
        j = j + 1;
    }
    proof {
        assert(im.skip(im.len() as int) =~~= Seq::<Seq<char>>::empty());
    }
    cur
}

/// Looks `key` up in the sampler table, the latest entry winning.
fn assoc_get(table: &Vec<(Vec<char>, Vec<char>)>, key: &Vec<char>) -> (r: Option<Vec<char>>)
    ensures
        ({
            let al = assoc_last(table_view(table@), key@);
            match r {
                Some(v) => al == Some(v@),
                None => al is None,
            }
        }),
{
    let ghost tv = table_view(table@);
    let mut j: usize = table.len();
    proof {
        assert(tv.len() == table@.len());
        assert(tv.subrange(0, tv.len() as int) =~~= tv);
    }
    while j > 0
        invariant
            j <= table.len(),
            tv == table_view(table@),
            tv.len() == table@.len(),
            assoc_last(tv, key@) == assoc_last(tv.subrange(0, j as int), key@),
        decreases j,
    {
        let j1 = j - 1;
        proof {
            assert(tv[j1 as int] == (table@[j1 as int].0@, table@[j1 as int].1@));
            assert(tv.subrange(0, j as int).last() == tv[j1 as int]);
            assert(tv.subrange(0, j as int).drop_last() =~~= tv.subrange(0, j1 as int));
        }
        if eq_chars(&table[j1].0, key) {
            return Some(copy_chars(&table[j1].1));
        }
        j = j1;
    }
    None
}

/// Builds the texture and sampler parameters of the fragment signature.
#[verifier::rlimit(100)]
fn frag_tex_params_chars(images: &Vec<Vec<char>>, table: &Vec<(Vec<char>, Vec<char>)>) -> (r:
    Result<Vec<char>, TranslateError>)
    ensures
        ({
            let sr = frag_tex_params(images.deep_view(), table_view(table@), 0);
            match r {
                Ok(v) => sr == Ok::<_, TranslateErrorView>(v@),
                Err(e) => sr == Err::<Seq<char>, _>(e@),
            }
        }),
{
    let ghost im = images.deep_view();
    let ghost tv = table_view(table@);
    let mut out: Vec<char> = Vec::new();
    let mut n: usize = 0;
    proof {
        assert(out@ =~= Seq::<char>::empty());
    }
    while n < images.len()
        invariant
            n <= images.len(),
            im == images.deep_view(),
            tv == table_view(table@),
            im.len() == images@.len(),
            ({
                let whole = frag_tex_params(im, tv, 0);
                match frag_tex_params(im, tv, n as int) {
                    Ok(rest) => whole == Ok::<_, TranslateErrorView>(out@ + rest),
                    Err(e) => whole == Err::<Seq<char>, _>(e),
                }
            }),
        decreases images.len() - n,
    {
        proof {
            lemma_deep_index(images, n as int);
        }
        let name = &images[n];
        let t_opt = assoc_get(table, name);
        let ty: &str = match &t_opt {
            Option::None => "texture2d",
            Option::Some(t) => {
                let s2d = chars_of("sampler2D");
                let scube = chars_of("samplerCube");
                if eq_chars(t, &s2d) {
                    "texture2d"
                } else if eq_chars(t, &scube) {
                    "texturecube"
                } else {
                    return Err(
                        TranslateError::UnsupportedSamplerKind {
                            name: string_from_chars(name),
                            sampler_type: string_from_chars(t),
                        },
                    );
                }
            },
        };
        proof {
            assert(tex_type_for(im[n as int], assoc_last(tv, im[n as int])) == Ok::<
                _,
                TranslateErrorView,
            >(ty@));
        }
        let ghost out0 = out@;
        let slot = dec_chars(n);
        append_str(&mut out, "    ");
        append_str(&mut out, ty);
        append_str(&mut out, "<float> ");
        append_chars(&mut out, name);
        append_str(&mut out, " [[texture(");
        append_chars(&mut out, &slot);
        append_str(&mut out, ")]],\n");
        append_str(&mut out, "    sampler ");
        append_chars(&mut out, name);
        append_str(&mut out, "Smplr [[sampler(");
        append_chars(&mut out, &slot);
        append_str(&mut out, ")]]");
        if n + 1 < images.len() {
            append_str(&mut out, ",\n");
        }
        proof {
            let sep: Seq<char> = if n + 1 < im.len() {
                ",\n"@
            } else {
                Seq::empty()
            };
            let line = "    "@ + ty@ + "<float> "@ + im[n as int] + " [[texture("@ + dec_str(
                n as nat,
            ) + ")]],\n"@ + "    sampler "@ + im[n as int] + "Smplr [[sampler("@ + dec_str(n as nat)
                + ")]]"@ + sep;
            assert(out@ =~= out0 + line);
            if frag_tex_params(im, tv, n + 1) is Ok {
                let rest = frag_tex_params(im, tv, n + 1)->Ok_0;
                assert(out0 + (line + rest) =~= out@ + rest);
            }
        }
        n = n + 1;
    }
    proof {
        assert(out@ + Seq::<char>::empty() =~= out@);
    }
    Ok(out)
}

/// Rewrites one vertex body line.
fn vertex_body_line_chars(
    l: &Vec<char>,
    attrs: &Vec<Vec<char>>,
    unis: &Vec<Vec<char>>,
    outs: &Vec<Vec<char>>,
) -> (r: Vec<char>)
    ensures
        r@ == vertex_body_line(l@, attrs.deep_view(), unis.deep_view(), outs.deep_view()),
{
    let pm = chars_of("mat3(");
    let rm = chars_of("sm_to_m3(");
    let m0 = replace_chars(l, &pm, &rm);
    let m1 = map_types_chars(&m0);
    let qv = chars_of("v.");
    let m2 = qualify_all_chars(&m1, attrs, &qv);
    let qu = chars_of("uniforms.");
    let m3 = qualify_all_chars(&m2, unis, &qu);
    let qo = chars_of("msl_vertex_out.");
    let m4 = qualify_all_chars(&m3, outs, &qo);
    let pp = chars_of("gl_Position");
    let rp = chars_of("msl_vertex_out.position");
    replace_chars(&m4, &pp, &rp)
}

/// Rewrites one fragment body line.
fn fragment_body_line_chars(
    l: &Vec<char>,
    unis: &Vec<Vec<char>>,
    outs: &Vec<Vec<char>>,
    images: &Vec<Vec<char>>,
) -> (r: Vec<char>)
    ensures
        r@ == fragment_body_line(l@, unis.deep_view(), outs.deep_view(), images.deep_view()),
{
    let pm = chars_of("mat3(");
    let rm = chars_of("sm_to_m3(");
    let m0 = replace_chars(l, &pm, &rm);
    let m1 = map_types_chars(&m0);
    let m2 = map_functions_chars(&m1);
    let qu = chars_of("uniforms.");
    let m3 = qualify_all_chars(&m2, unis, &qu);
    let qi = chars_of("in.");
    let m4 = qualify_all_chars(&m3, outs, &qi);
    let pc = chars_of("gl_FragColor");
    let rc = chars_of("msl_out_color");
    let m5 = replace_chars(&m4, &pc, &rc);
    tex_rewrite_all_chars(&m5, images)
}

/// Runs the vertex stage's body pass over its lines.
fn vertex_body_chars(
    lines: &Vec<Vec<char>>,
    attrs: &Vec<Vec<char>>,
    unis: &Vec<Vec<char>>,
    outs: &Vec<Vec<char>>,
) -> (r: Vec<char>)
    ensures
        r@ == vertex_body_spec(
            lines.deep_view(),
            false,
            attrs.deep_view(),
            unis.deep_view(),
            outs.deep_view(),
        ),
{
    let ghost ls = lines.deep_view();
    let ghost av = attrs.deep_view();
    let ghost uv = unis.deep_view();
    let ghost ov = outs.deep_view();
    let kw_u = chars_of("uniform");
    let kw_a = chars_of("attribute");
    let kw_v = chars_of("varying");
    let kw_m = chars_of("void main()");
    let brace = chars_of("}");
    let mut out: Vec<char> = Vec::new();
    let mut in_main = false;
    let mut i: usize = 0;
    proof {
        assert(ls.skip(0) =~~= ls);
        assert(out@ + vertex_body_spec(ls, false, av, uv, ov) =~= vertex_body_spec(
            ls,
            false,
            av,
            uv,
            ov,
        ));
    }
    while i < lines.len()
        invariant
            i <= lines.len(),
            ls == lines.deep_view(),
            av == attrs.deep_view(),
            uv == unis.deep_view(),
            ov == outs.deep_view(),
            kw_u@ == "uniform"@,
            kw_a@ == "attribute"@,
            kw_v@ == "varying"@,
            kw_m@ == "void main()"@,
            brace@ == "}"@,
            vertex_body_spec(ls, false, av, uv, ov) == out@ + vertex_body_spec(
                ls.skip(i as int),
                in_main,
                av,
                uv,
                ov,
            ),
        decreases lines.len() - i,
    {
        proof {
            lemma_deep_index(lines, i as int);
            assert(ls.skip(i as int)[0] == ls[i as int]);
            assert(ls.skip(i as int).skip(1) =~~= ls.skip(i + 1));
        }
        let line = &lines[i];
        let ghost out0 = out@;
        if contains_chars(line, &kw_u) || contains_chars(line, &kw_a) || contains_chars(
            line,
            &kw_v,
        ) {
            // dropped: already consumed by the scanning passes
        } else if contains_chars(line, &kw_m) {
            append_str(
                &mut out,
                "vertex RasterizerData vertexShader(\n    Vertex v [[stage_in]],\n    constant Uniforms& uniforms [[buffer(0)]]\n) {\n    RasterizerData msl_vertex_out;\n",
            );
            in_main = true;
            proof {
                let rest = vertex_body_spec(ls.skip(i + 1), true, av, uv, ov);
                assert(out0 + (vertex_sig_text() + rest) =~= out@ + rest);
            }
        } else if in_main {
            let b = vertex_body_line_chars(line, attrs, unis, outs);
            if starts_with_chars(&b, &brace) {
                append_str(&mut out, "return msl_vertex_out;\n");
            }
            append_chars(&mut out, &b);
            append_str(&mut out, "\n");
            proof {
                let pre: Seq<char> = if match_at(b@, "}"@, 0) {
                    "return msl_vertex_out;\n"@
                } else {
                    Seq::empty()
                };
                let rest = vertex_body_spec(ls.skip(i + 1), true, av, uv, ov);
                assert(out@ =~= out0 + pre + b@ + "\n"@);
                assert(out0 + (pre + b@ + "\n"@ + rest) =~= out@ + rest);
            }
        } else {
            let pm = chars_of("mat3(");
            let rm = chars_of("sm_to_m3(");
            let m0 = replace_chars(line, &pm, &rm);
            let m1 = map_types_chars(&m0);
            append_chars(&mut out, &m1);
            append_str(&mut out, "\n");
            proof {
                let rest = vertex_body_spec(ls.skip(i + 1), false, av, uv, ov);
                assert(out@ =~= out0 + pre_line(ls[i as int]) + "\n"@);
                assert(out0 + (pre_line(ls[i as int]) + "\n"@ + rest) =~= out@ + rest);
            }
        }
        i = i + 1;
    }
    proof {
        assert(ls.skip(ls.len() as int) =~~= Seq::<Seq<char>>::empty());
        assert(out@ + Seq::<char>::empty() =~= out@);
    }
    out
}

/// Runs the fragment stage's body pass over its lines.
fn fragment_body_chars(
    lines: &Vec<Vec<char>>,
    unis: &Vec<Vec<char>>,
    outs: &Vec<Vec<char>>,
    images: &Vec<Vec<char>>,
    table: &Vec<(Vec<char>, Vec<char>)>,
) -> (r: Result<Vec<char>, TranslateError>)
    ensures
        ({
            let sr = fragment_body_spec(
                lines.deep_view(),
                false,
                unis.deep_view(),
                outs.deep_view(),
                images.deep_view(),
                table_view(table@),
            );
            match r {
                Ok(v) => sr == Ok::<_, TranslateErrorView>(v@),
                Err(e) => sr == Err::<Seq<char>, _>(e@),
            }
        }),
{
    let ghost ls = lines.deep_view();
    let ghost uv = unis.deep_view();
    let ghost ov = outs.deep_view();
    let ghost iv = images.deep_view();
    let ghost tv = table_view(table@);
    let kw_u = chars_of("uniform");
    let kw_a = chars_of("attribute");
    let kw_v = chars_of("varying");
    let kw_m = chars_of("void main()");
    let brace = chars_of("}");
    let mut out: Vec<char> = Vec::new();
    let mut in_main = false;
    let mut i: usize = 0;
    proof {
        assert(ls.skip(0) =~~= ls);
        assert(out@ =~= Seq::<char>::empty());
    }
    while i < lines.len()
        invariant
            i <= lines.len(),
            ls == lines.deep_view(),
            uv == unis.deep_view(),
            ov == outs.deep_view(),
            iv == images.deep_view(),
            tv == table_view(table@),
            kw_u@ == "uniform"@,
            kw_a@ == "attribute"@,
            kw_v@ == "varying"@,
            kw_m@ == "void main()"@,
            brace@ == "}"@,
            ({
                let whole = fragment_body_spec(ls, false, uv, ov, iv, tv);
                match fragment_body_spec(ls.skip(i as int), in_main, uv, ov, iv, tv) {
                    Ok(rest) => whole == Ok::<_, TranslateErrorView>(out@ + rest),
                    Err(e) => whole == Err::<Seq<char>, _>(e),
                }
            }),
        decreases lines.len() - i,
    {
        proof {
            lemma_deep_index(lines, i as int);
            assert(ls.skip(i as int)[0] == ls[i as int]);
            assert(ls.skip(i as int).skip(1) =~~= ls.skip(i + 1));
        }
        let line = &lines[i];
        let ghost out0 = out@;
        if contains_chars(line, &kw_u) || contains_chars(line, &kw_a) || contains_chars(
            line,
            &kw_v,
        ) {
            // dropped: already consumed by the scanning passes
        } else if contains_chars(line, &kw_m) {
            let params = match frag_tex_params_chars(images, table) {
                Ok(p) => p,
                Err(e) => {
                    return Err(e);
                },
            };
            append_str(
                &mut out,
                "fragment float4 fragmentShader(\n    RasterizerData in[[stage_in]],\n    constant Uniforms& uniforms [[buffer(0)]],\n",
            );
            append_chars(&mut out, &params);
            append_str(&mut out, ") {\n    float4 msl_out_color;\n");
            in_main = true;
            proof {
                let sig = frag_sig_spec(iv, tv)->Ok_0;
                assert(out@ =~= out0 + sig);
                if fragment_body_spec(ls.skip(i + 1), true, uv, ov, iv, tv) is Ok {
                    let rest = fragment_body_spec(ls.skip(i + 1), true, uv, ov, iv, tv)->Ok_0;
                    assert(out0 + (sig + rest) =~= out@ + rest);
                }
            }
        } else if in_main {
            let b = fragment_body_line_chars(line, unis, outs, images);
            if starts_with_chars(&b, &brace) {
                append_str(&mut out, "return msl_out_color;\n");
            }
            append_chars(&mut out, &b);
            append_str(&mut out, "\n");
            proof {
                let pre: Seq<char> = if match_at(b@, "}"@, 0) {
                    "return msl_out_color;\n"@
                } else {
                    Seq::empty()
                };
                assert(out@ =~= out0 + pre + b@ + "\n"@);
                if fragment_body_spec(ls.skip(i + 1), true, uv, ov, iv, tv) is Ok {
                    let rest = fragment_body_spec(ls.skip(i + 1), true, uv, ov, iv, tv)->Ok_0;
                    assert(out0 + (pre + b@ + "\n"@ + rest) =~= out@ + rest);
                }
            }
        } else {
            let pm = chars_of("mat3(");
            let rm = chars_of("sm_to_m3(");
            let m0 = replace_chars(line, &pm, &rm);
            let m1 = map_types_chars(&m0);
            let m2 = map_functions_chars(&m1);
            append_chars(&mut out, &m2);
            append_str(&mut out, "\n");
            proof {
                assert(out@ =~= out0 + map_functions(pre_line(ls[i as int])) + "\n"@);
                if fragment_body_spec(ls.skip(i + 1), false, uv, ov, iv, tv) is Ok {
                    let rest = fragment_body_spec(ls.skip(i + 1), false, uv, ov, iv, tv)->Ok_0;
                    assert(out0 + (map_functions(pre_line(ls[i as int])) + "\n"@ + rest) =~= out@
                        + rest);
                }
            }
        }
        i = i + 1;
    }
    proof {
        assert(ls.skip(ls.len() as int) =~~= Seq::<Seq<char>>::empty());
        assert(out@ + Seq::<char>::empty() =~= out@);
    }
    Ok(out)
}

/// The whole translation: the fixed header, the three synthesized records,
/// then the rewritten vertex and fragment stages, in that order; any
/// unsupported uniform kind, malformed declaration, or unsupported sampler
/// kind refuses the whole translation and yields no output text at all.
pub open spec fn metal_spec(
    fragment: Seq<char>,
    vertex: Seq<char>,
    uniforms: Seq<(Seq<char>, UniformKind)>,
    images: Seq<Seq<char>>,
    defines: Seq<Seq<char>>,
) -> Result<Seq<char>, TranslateErrorView> {
    match uniforms_struct_spec(uniforms) {
        Err(e) => Err(e),
        Ok(utext) => match vertex_struct_spec(vertex) {
            Err(e) => Err(e),
            Ok((vtext, attrs)) => match raster_struct_spec(vertex) {
                Err(e) => Err(e),
                Ok((rtext, varyings)) => match sampler_table_spec(lines_of(fragment)) {
                    Err(e) => Err(e),
                    Ok(table) => {
                        let attr_names = names_of(attrs);
                        let out_names = names_of(varyings);
                        let unis = uniform_names(uniforms);
                        let vbody = vertex_body_spec(
                            lines_of(vertex),
                            false,
                            attr_names,
                            unis,
                            out_names,
                        );
                        match fragment_body_spec(
                            lines_of(fragment),
                            false,
                            unis,
                            out_names,
                            images,
                            table,
                        ) {
                            Err(e) => Err(e),
                            Ok(fbody) => Ok(
                                header_text(defines) + utext + vtext + rtext + vbody + fbody,
                            ),
                        }
                    },
                },
            },
        },
    }
}

/// The names of scanned declarations as character vectors.
fn decl_names(ds: &Vec<Decl>) -> (r: Vec<Vec<char>>)
    ensures
        r.deep_view() == names_of(decls_view(ds@)),
{
    let ghost dv = decls_view(ds@);
    let mut r: Vec<Vec<char>> = Vec::new();
    let mut j: usize = 0;
    while j < ds.len()
        invariant
            j <= ds.len(),
            dv == decls_view(ds@),
            dv.len() == ds@.len(),
            r@.len() == j,
            r.deep_view() == names_of(dv).subrange(0, j as int),
        decreases ds.len() - j,
    {
        let name = copy_chars(&ds[j].name);
        let ghost r0 = r;
        r.push(name);
        j = j + 1;
        proof {
            lemma_deep_push(r0, r, name);
            assert(dv[j - 1] == ds@[j - 1]@);
            assert(r.deep_view() =~~= names_of(dv).subrange(0, j as int));
        }
    }
    proof {
        assert(names_of(dv).subrange(0, dv.len() as int) =~~= names_of(dv));
    }
    r
}

/// The metadata uniform names as character vectors.
fn uniform_name_chars(us: &Vec<UniformDesc>) -> (r: Vec<Vec<char>>)
    ensures
        r.deep_view() == uniform_names(uniforms_seq(us@)),
{
    let ghost uv = uniforms_seq(us@);
    let mut r: Vec<Vec<char>> = Vec::new();
    let mut j: usize = 0;
    while j < us.len()
        invariant
            j <= us.len(),
            uv == uniforms_seq(us@),
            uv.len() == us@.len(),
            r@.len() == j,
            r.deep_view() == uniform_names(uv).subrange(0, j as int),
        decreases us.len() - j,
    {
        let name = chars_of(us[j].name.as_str());
        let ghost r0 = r;
        r.push(name);
        j = j + 1;
        proof {
            lemma_deep_push(r0, r, name);
            assert(uv[j - 1] == (us@[j - 1].name@, us@[j - 1].kind));
            assert(r.deep_view() =~~= uniform_names(uv).subrange(0, j as int));
        }
    }
    proof {
        assert(uniform_names(uv).subrange(0, uv.len() as int) =~~= uniform_names(uv));
    }
    r
}

/// The bound texture names as character vectors.
fn image_chars(images: &Vec<String>) -> (r: Vec<Vec<char>>)
    ensures
        r.deep_view() == images.deep_view(),
{
    let mut r: Vec<Vec<char>> = Vec::new();
    let mut j: usize = 0;
    while j < images.len()
        invariant
            j <= images.len(),
            r@.len() == j,
            r.deep_view() == images.deep_view().subrange(0, j as int),
        decreases images.len() - j,
    {
        let name = chars_of(images[j].as_str());
        let ghost r0 = r;
        r.push(name);
        j = j + 1;
        proof {
            lemma_deep_push(r0, r, name);
            lemma_deep_index_str(images, j - 1);
            assert(r.deep_view() =~~= images.deep_view().subrange(0, j as int));
        }
    }
    proof {
        assert(images.deep_view().subrange(0, images.deep_view().len() as int)
            =~~= images.deep_view());
    }
    r
}

/// Translates the shader pair into one Metal-style source text: the fixed
/// header with the requested defines, the Uniforms, Vertex-input and
/// Stage-output records, and the rewritten vertex and fragment entry points.
/// An unsupported uniform kind, a malformed declaration, or an unsupported
/// sampler kind refuses the whole translation, and no output is produced.
#[verifier::rlimit(100)]
pub fn metal(fragment: &str, vertex: &str, meta: &ShaderMeta, defines: &[String]) -> (r: Result<
    String,
    TranslateError,
>)
    ensures
        ({
            let sr = metal_spec(
                fragment@,
                vertex@,
                meta.uniforms_view(),
                meta.images_view(),
                defines.deep_view(),
            );
            match r {
                Ok(s) => sr == Ok::<_, TranslateErrorView>(s@),
                Err(e) => sr == Err::<Seq<char>, _>(e@),
            }
        }),
{
    let ghost dv = defines.deep_view();
    let mut out = chars_of("#include <metal_stdlib>\nusing namespace metal;\n");
    let mut n: usize = 0;
    proof {
        assert(dv.skip(0) =~~= dv);
        assert(out@ + define_lines(dv) =~= "#include <metal_stdlib>\nusing namespace metal;\n"@
            + define_lines(dv));
    }
    while n < defines.len()
        invariant
            n <= defines.len(),
            dv == defines.deep_view(),
            dv.len() == defines@.len(),
            "#include <metal_stdlib>\nusing namespace metal;\n"@ + define_lines(dv) == out@
                + define_lines(dv.skip(n as int)),
        decreases defines.len() - n,
    {
        let d = vstd::slice::slice_index_get(defines, n);
        let ghost out0 = out@;
        append_str(&mut out, "#define ");
        append_str(&mut out, d.as_str());
        append_str(&mut out, " 1\n");
        proof {
            assert(dv[n as int] == defines@[n as int]@);
            assert(dv.skip(n as int)[0] == dv[n as int]);
            assert(dv.skip(n as int).skip(1) =~~= dv.skip(n + 1));
            let rest = define_lines(dv.skip(n + 1));
            assert(out@ =~= out0 + ("#define "@ + dv[n as int] + " 1\n"@));
            assert(out0 + ("#define "@ + dv[n as int] + " 1\n"@ + rest) =~= out@ + rest);
        }
        n = n + 1;
    }
    proof {
        assert(dv.skip(dv.len() as int) =~~= Seq::<Seq<char>>::empty());
        assert(out@ + Seq::<char>::empty() =~= out@);
    }
    append_str(
        &mut out,
        "float3x3 sm_to_m3(float3 v0, float3 v1, float3 v2) {return float3x3(v0, v1, v2);}\n",
    );
    append_str(
        &mut out,
        "float3x3 sm_to_m3(float4x4 m) {return float3x3(m[0].xyz, m[1].xyz, m[2].xyz);}\n",
    );
    append_str(&mut out, "#define sm_level(x) level(x)\n");
    proof {
        assert(out@ =~= header_text(dv));
    }
    let uf = match uniform_fields_chars(&meta.uniforms) {
        Ok(v) => v,
        Err(e) => {
            return Err(e);
        },
    };
    append_str(&mut out, "struct Uniforms {\n");
    append_chars(&mut out, &uf);
    append_str(&mut out, "};\n");
    let ghost utext = uniforms_struct_spec(meta.uniforms_view())->Ok_0;
    proof {
        assert(uniforms_struct_spec(meta.uniforms_view()) is Ok);
        assert(out@ =~= header_text(dv) + utext);
    }
    let vv = chars_of(vertex);
    let vlines = lines_chars(&vv);
    let kw_attr = chars_of("attribute");
    let attr_ds = match scan_decls_chars(&vlines, &kw_attr, DeclCategory::Attribute) {
        Ok(ds2) => ds2,
        Err(e) => {
            return Err(e);
        },
    };
    append_str(&mut out, "struct Vertex {\n");
    let af = field_lines_chars(&attr_ds);
    append_chars(&mut out, &af);
    append_str(&mut out, "};\n");
    let ghost vtext = vertex_struct_spec(vertex@)->Ok_0.0;
    proof {
        assert(vertex_struct_spec(vertex@) is Ok);
        assert(out@ =~= header_text(dv) + utext + vtext);
    }
    let kw_vary = chars_of("varying");
    let vary_ds = match scan_decls_chars(&vlines, &kw_vary, DeclCategory::Varying) {
        Ok(ds2) => ds2,
        Err(e) => {
            return Err(e);
        },
    };
    append_str(&mut out, "struct RasterizerData {\n    float4 position [[position]];\n");
    let vf = field_lines_chars(&vary_ds);
    append_chars(&mut out, &vf);
    append_str(&mut out, "};\n");
    let ghost rtext = raster_struct_spec(vertex@)->Ok_0.0;
    proof {
        assert(raster_struct_spec(vertex@) is Ok);
        assert(out@ =~= header_text(dv) + utext + vtext + rtext);
    }
    let fv = chars_of(fragment);
    let flines = lines_chars(&fv);
    let table = match sampler_table_chars(&flines) {
        Ok(t) => t,
        Err(e) => {
            return Err(e);
        },
    };
    let attr_names = decl_names(&attr_ds);
    let out_names = decl_names(&vary_ds);
    let uni_names = uniform_name_chars(&meta.uniforms);
    let img_names = image_chars(&meta.images);
    let vbody = vertex_body_chars(&vlines, &attr_names, &uni_names, &out_names);
    append_chars(&mut out, &vbody);
    proof {
        assert(out@ =~= header_text(dv) + utext + vtext + rtext + vbody@);
    }
    let fbody = match fragment_body_chars(&flines, &uni_names, &out_names, &img_names, &table) {
        Ok(v) => v,
        Err(e) => {
            return Err(e);
        },
    };
    append_chars(&mut out, &fbody);
    proof {
        assert(out@ =~= header_text(dv) + utext + vtext + rtext + vbody@ + fbody@);
    }
    Ok(string_from_chars(&out))
}

} // verus!
