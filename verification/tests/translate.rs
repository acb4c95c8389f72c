use glsl_to_metal::mapper::{replace_functions, replace_types};
use glsl_to_metal::rewrite::metal;
use glsl_to_metal::scan::collect_texture_types;
use glsl_to_metal::structs::{
    emit_rasterizer_data_struct, emit_uniforms_struct, emit_vertex_struct,
};
use glsl_to_metal::types::{DeclCategory, ShaderMeta, TranslateError, UniformDesc, UniformKind};

fn meta(uniforms: Vec<(&str, UniformKind)>, images: Vec<&str>) -> ShaderMeta {
    ShaderMeta {
        uniforms: uniforms
            .into_iter()
            .map(|(n, k)| UniformDesc { name: n.to_string(), kind: k })
            .collect(),
        images: images.into_iter().map(|s| s.to_string()).collect(),
    }
}

#[test]
fn type_mapper_exact_values() {
    assert_eq!(replace_types("attribute vec3 pos;"), "attribute float3 pos;");
    assert_eq!(replace_types("vec2 vec4 mat3 mat4"), "float2 float4 float3x3 float4x4");
    assert_eq!(replace_types("float x = 1.0;"), "float x = 1.0;");
    assert_eq!(replace_types("no shader types here"), "no shader types here");
}

#[test]
fn function_mapper_exact_values() {
    assert_eq!(replace_functions("dFdx(p) + dFdy(q)"), "dfdx(p) + dfdy(q)");
    assert_eq!(replace_functions("plain"), "plain");
}

#[test]
fn uniforms_struct_all_supported_kinds() {
    let m = meta(
        vec![
            ("a", UniformKind::Float1),
            ("b", UniformKind::Float2),
            ("c", UniformKind::Float3),
            ("d", UniformKind::Float4),
            ("e", UniformKind::Mat4),
        ],
        vec![],
    );
    let mut buf = String::new();
    emit_uniforms_struct(&mut buf, &m).unwrap();
    assert_eq!(
        buf,
        "struct Uniforms {\n    float a;\n    float2 b;\n    float3 c;\n    float4 d;\n    float4x4 e;\n};\n"
    );
}

#[test]
fn uniforms_struct_unsupported_kind_fails_without_output() {
    let m = meta(vec![("ok", UniformKind::Float1), ("bad", UniformKind::Int3)], vec![]);
    let mut buf = String::new();
    let r = emit_uniforms_struct(&mut buf, &m);
    match r {
        Err(TranslateError::UnsupportedUniformKind { name }) => assert_eq!(name, "bad"),
        other => panic!("expected an unsupported-uniform-kind error, got {:?}", other),
    }
    assert_eq!(buf, "", "no struct text may be emitted on failure");
}

#[test]
fn vertex_struct_fields_and_pairs() {
    let vertex = "attribute vec3 pos;\nattribute vec4 col [[attribute(1)]];\nvoid main() {\n}\n";
    let mut buf = String::new();
    let attrs = emit_vertex_struct(&mut buf, vertex).unwrap();
    assert_eq!(
        buf,
        "struct Vertex {\n    float3 pos;\n    float4 col [[attribute(1)]];\n};\n"
    );
    assert_eq!(
        attrs,
        vec![
            ("pos".to_string(), "float3".to_string()),
            ("col".to_string(), "float4".to_string()),
        ]
    );
}

#[test]
fn vertex_struct_malformed_declaration_fails_without_output() {
    let vertex = "attribute vec3;\nvoid main() {\n}\n";
    let mut buf = String::new();
    let r = emit_vertex_struct(&mut buf, vertex);
    match r {
        Err(TranslateError::MalformedDeclaration { line, category }) => {
            assert_eq!(line, "attribute vec3;");
            assert_eq!(category, DeclCategory::Attribute);
        }
        other => panic!("expected a malformed-declaration error, got {:?}", other),
    }
    assert_eq!(buf, "");
}

#[test]
fn rasterizer_struct_has_position_and_varyings() {
    let vertex = "varying vec2 uv;\nvoid main() {\n}\n";
    let mut buf = String::new();
    let outs = emit_rasterizer_data_struct(&mut buf, vertex).unwrap();
    assert_eq!(
        buf,
        "struct RasterizerData {\n    float4 position [[position]];\n    float2 uv;\n};\n"
    );
    assert_eq!(outs, vec!["uv".to_string()]);
}

#[test]
fn collect_texture_types_reads_sampler_declarations() {
    let fragment = "uniform sampler2D tex;\nuniform samplerCube env;\nvoid main() {\n}\n";
    let table = collect_texture_types(fragment).unwrap();
    assert_eq!(
        table,
        vec![
            ("tex".to_string(), "sampler2D".to_string()),
            ("env".to_string(), "samplerCube".to_string()),
        ]
    );
}

#[test]
fn collect_texture_types_malformed_fails() {
    let fragment = "uniform sampler2D\nvoid main() {\n}\n";
    let r = collect_texture_types(fragment);
    match r {
        Err(TranslateError::MalformedDeclaration { line, category }) => {
            assert_eq!(line, "uniform sampler2D");
            assert_eq!(category, DeclCategory::Sampler);
        }
        other => panic!("expected a malformed-declaration error, got {:?}", other),
    }
}

#[test]
fn metal_vertex_scenario_mvp_times_position() {
    let vertex =
        "uniform mat4 mvp;\nattribute vec3 pos;\nvoid main() {\ngl_Position = mvp * vec4(pos,1.0);\n}\n";
    let fragment = "void main() {\ngl_FragColor = vec4(1.0,1.0,1.0,1.0);\n}\n";
    let m = meta(vec![("mvp", UniformKind::Mat4)], vec![]);
    let out = metal(fragment, vertex, &m, &[]).unwrap();
    assert!(
        out.contains("msl_vertex_out.position = uniforms.mvp * float4(v.pos,1.0);\nreturn msl_vertex_out;\n}\n"),
        "vertex body wrong:\n{}",
        out
    );
    let mut expected = String::new();
    expected.push_str("#include <metal_stdlib>\n");
    expected.push_str("using namespace metal;\n");
    expected.push_str(
        "float3x3 sm_to_m3(float3 v0, float3 v1, float3 v2) {return float3x3(v0, v1, v2);}\n",
    );
    expected.push_str(
        "float3x3 sm_to_m3(float4x4 m) {return float3x3(m[0].xyz, m[1].xyz, m[2].xyz);}\n",
    );
    expected.push_str("#define sm_level(x) level(x)\n");
    expected.push_str("struct Uniforms {\n    float4x4 mvp;\n};\n");
    expected.push_str("struct Vertex {\n    float3 pos;\n};\n");
    expected.push_str("struct RasterizerData {\n    float4 position [[position]];\n};\n");
    expected.push_str("vertex RasterizerData vertexShader(\n");
    expected.push_str("    Vertex v [[stage_in]],\n");
    expected.push_str("    constant Uniforms& uniforms [[buffer(0)]]\n");
    expected.push_str(") {\n");
    expected.push_str("    RasterizerData msl_vertex_out;\n");
    expected.push_str("msl_vertex_out.position = uniforms.mvp * float4(v.pos,1.0);\n");
    expected.push_str("return msl_vertex_out;\n");
    expected.push_str("}\n");
    expected.push_str("fragment float4 fragmentShader(\n");
    expected.push_str("    RasterizerData in[[stage_in]],\n");
    expected.push_str("    constant Uniforms& uniforms [[buffer(0)]],\n");
    expected.push_str(") {\n");
    expected.push_str("    float4 msl_out_color;\n");
    expected.push_str("msl_out_color = float4(1.0,1.0,1.0,1.0);\n");
    expected.push_str("return msl_out_color;\n");
    expected.push_str("}\n");
    assert_eq!(out, expected);
}

#[test]
fn metal_fragment_scenario_texture_sample() {
    let vertex = "void main() {\ngl_Position = vec4(0.0,0.0,0.0,1.0);\n}\n";
    let fragment = "uniform sampler2D tex;\nvoid main() {\ngl_FragColor = texture2D(tex, uv);\n}\n";
    let m = meta(vec![], vec!["tex"]);
    let out = metal(fragment, vertex, &m, &[]).unwrap();
    assert!(
        out.contains("msl_out_color = tex.sample(texSmplr, uv);"),
        "fragment body wrong:\n{}",
        out
    );
    assert!(out.contains("    texture2d<float> tex [[texture(0)]],\n"));
    assert!(out.contains("    sampler texSmplr [[sampler(0)]]"));
}

#[test]
fn metal_varying_scenario_qualified_in_both_stages() {
    let vertex = "attribute vec2 texc;\nvarying vec2 uv;\nvoid main() {\nuv = texc;\ngl_Position = vec4(texc,0.0,1.0);\n}\n";
    let fragment = "varying vec2 uv;\nvoid main() {\ngl_FragColor = vec4(uv,0.0,1.0);\n}\n";
    let m = meta(vec![], vec![]);
    let out = metal(fragment, vertex, &m, &[]).unwrap();
    assert!(out.contains("    float2 uv;\n"), "stage-output field missing:\n{}", out);
    assert!(out.contains("msl_vertex_out.uv = v.texc;\n"), "vertex body wrong:\n{}", out);
    assert!(out.contains("msl_out_color = float4(in.uv,0.0,1.0);\n"), "fragment body wrong:\n{}", out);
}

#[test]
fn metal_unsupported_uniform_kind_fails_with_no_output() {
    let vertex = "void main() {\n}\n";
    let fragment = "void main() {\n}\n";
    let m = meta(vec![("count", UniformKind::Int1)], vec![]);
    let r = metal(fragment, vertex, &m, &[]);
    match r {
        Err(TranslateError::UnsupportedUniformKind { name }) => assert_eq!(name, "count"),
        other => panic!("expected an unsupported-uniform-kind error, got {:?}", other),
    }
}

#[test]
fn metal_unscanned_texture_defaults_to_2d() {
    let vertex = "void main() {\ngl_Position = vec4(0.0,0.0,0.0,1.0);\n}\n";
    let fragment = "void main() {\ngl_FragColor = vec4(1.0,0.0,0.0,1.0);\n}\n";
    let m = meta(vec![], vec!["shadow"]);
    let out = metal(fragment, vertex, &m, &[]).unwrap();
    assert!(
        out.contains("    texture2d<float> shadow [[texture(0)]],\n"),
        "default texture handle wrong:\n{}",
        out
    );
}

#[test]
fn metal_cube_sampler_and_slot_order() {
    let vertex = "void main() {\ngl_Position = vec4(0.0,0.0,0.0,1.0);\n}\n";
    let fragment = "uniform sampler2D tex;\nuniform samplerCube env;\nvoid main() {\ngl_FragColor = textureCube(env, dir) + texture2D(tex, uv);\n}\n";
    let m = meta(vec![], vec!["tex", "env"]);
    let out = metal(fragment, vertex, &m, &[]).unwrap();
    assert!(out.contains("    texture2d<float> tex [[texture(0)]],\n"));
    assert!(out.contains("    sampler texSmplr [[sampler(0)]],\n"));
    assert!(out.contains("    texturecube<float> env [[texture(1)]],\n"));
    assert!(out.contains("    sampler envSmplr [[sampler(1)]]"));
    assert!(out.contains("msl_out_color = env.sample(envSmplr, dir) + tex.sample(texSmplr, uv);"));
}

#[test]
fn metal_unsupported_sampler_kind_fails() {
    let vertex = "void main() {\n}\n";
    let fragment = "uniform sampler3D vol;\nvoid main() {\ngl_FragColor = vec4(0.0,0.0,0.0,1.0);\n}\n";
    let m = meta(vec![], vec!["vol"]);
    let r = metal(fragment, vertex, &m, &[]);
    match r {
        Err(TranslateError::UnsupportedSamplerKind { name, sampler_type }) => {
            assert_eq!(name, "vol");
            assert_eq!(sampler_type, "sampler3D");
        }
        other => panic!("expected an unsupported-sampler-kind error, got {:?}", other),
    }
}

#[test]
fn metal_emits_requested_defines() {
    let vertex = "void main() {\n}\n";
    let fragment = "void main() {\n}\n";
    let m = meta(vec![], vec![]);
    let defines = vec!["HAS_FOG".to_string(), "USE_SKINNING".to_string()];
    let out = metal(fragment, vertex, &m, &defines).unwrap();
    assert!(out.contains("#define HAS_FOG 1\n#define USE_SKINNING 1\n"));
}

#[test]
fn metal_matrix_constructor_rewritten() {
    let vertex = "uniform mat4 mvp;\nvoid main() {\nmat3 nm = mat3(mvp);\ngl_Position = vec4(0.0,0.0,0.0,1.0);\n}\n";
    let fragment = "void main() {\ngl_FragColor = vec4(1.0,1.0,1.0,1.0);\n}\n";
    let m = meta(vec![("mvp", UniformKind::Mat4)], vec![]);
    let out = metal(fragment, vertex, &m, &[]).unwrap();
    assert!(
        out.contains("float3x3 nm = sm_to_m3(uniforms.mvp);\n"),
        "matrix constructor rewrite wrong:\n{}",
        out
    );
}

#[test]
fn qualifier_collapse_keeps_single_qualifier() {
    // "uv" is a prefix of "uv2": qualifying "uv" first leaves "uv2" already
    // qualified, and qualifying "uv2" would double the qualifier if the
    // collapse rule did not remove it again.
    let vertex = "attribute vec2 texc;\nvarying vec2 uv;\nvarying vec2 uv2;\nvoid main() {\nuv = texc;\nuv2 = uv;\ngl_Position = vec4(texc,0.0,1.0);\n}\n";
    let fragment = "varying vec2 uv;\nvarying vec2 uv2;\nvoid main() {\ngl_FragColor = vec4(uv2,0.0,1.0);\n}\n";
    let m = meta(vec![], vec![]);
    let out = metal(fragment, vertex, &m, &[]).unwrap();
    assert!(
        out.contains("msl_vertex_out.uv2 = msl_vertex_out.uv;\n"),
        "doubled qualifier not collapsed:\n{}",
        out
    );
    assert!(!out.contains("msl_vertex_out.msl_vertex_out."), "doubled qualifier left:\n{}", out);
    assert!(out.contains("msl_out_color = float4(in.uv2,0.0,1.0);\n"), "fragment side:\n{}", out);
    assert!(!out.contains("in.in."), "doubled qualifier left in fragment:\n{}", out);
}

#[test]
fn windows_line_endings_are_handled() {
    let vertex = "attribute vec3 pos;\r\nvoid main() {\r\ngl_Position = vec4(pos,1.0);\r\n}\r\n";
    let mut buf = String::new();
    let attrs = emit_vertex_struct(&mut buf, vertex).unwrap();
    assert_eq!(buf, "struct Vertex {\n    float3 pos;\n};\n");
    assert_eq!(attrs, vec![("pos".to_string(), "float3".to_string())]);
}

#[test]
fn fragment_body_qualifies_metadata_uniforms() {
    let vertex = "void main() {\ngl_Position = vec4(0.0,0.0,0.0,1.0);\n}\n";
    let fragment = "void main() {\ngl_FragColor = tint;\n}\n";
    let m = meta(vec![("tint", UniformKind::Float4)], vec![]);
    let out = metal(fragment, vertex, &m, &[]).unwrap();
    assert!(
        out.contains("msl_out_color = uniforms.tint;\n"),
        "uniform not qualified in fragment body:\n{}",
        out
    );
}

#[test]
fn error_description_names_the_input() {
    let e = TranslateError::UnsupportedUniformKind { name: "joints".to_string() };
    assert!(e.describe().contains("joints"));
    let e = TranslateError::MalformedDeclaration {
        line: "varying vec2;".to_string(),
        category: DeclCategory::Varying,
    };
    assert!(e.describe().contains("varying vec2;"));
}
