//! The type and function mapper: fixed text-to-text tables taking source
//! type names and derivative builtins to their target-dialect spellings.

use vstd::prelude::*;
use crate::text::{replace_all, replace_chars, chars_of, string_from_chars};

verus! {

/// Every source type token replaced by its target spelling, in the fixed
/// table order. The identity entry for the scalar float keeps the table
/// exhaustive over the supported scalar/vector/matrix types.
pub open spec fn map_types(l: Seq<char>) -> Seq<char> {
    let l = replace_all(l, "float"@, "float"@);
    let l = replace_all(l, "vec2"@, "float2"@);
    let l = replace_all(l, "vec3"@, "float3"@);
    let l = replace_all(l, "vec4"@, "float4"@);
    let l = replace_all(l, "mat3"@, "float3x3"@);
    replace_all(l, "mat4"@, "float4x4"@)
}

/// Every derivative builtin name replaced by its target spelling.
pub open spec fn map_functions(l: Seq<char>) -> Seq<char> {
    replace_all(replace_all(l, "dFdx"@, "dfdx"@), "dFdy"@, "dfdy"@)
}

/// `map_types` on a character vector.
pub fn map_types_chars(l: &Vec<char>) -> (r: Vec<char>)
    ensures
        r@ == map_types(l@),
{
    let p1 = chars_of("float");
    let l1 = replace_chars(l, &p1, &p1);
    let p2 = chars_of("vec2");
    let r2 = chars_of("float2");
    let l2 = replace_chars(&l1, &p2, &r2);
    let p3 = chars_of("vec3");
    let r3 = chars_of("float3");
    let l3 = replace_chars(&l2, &p3, &r3);
    let p4 = chars_of("vec4");
    let r4 = chars_of("float4");
    let l4 = replace_chars(&l3, &p4, &r4);
    let p5 = chars_of("mat3");
    let r5 = chars_of("float3x3");
    let l5 = replace_chars(&l4, &p5, &r5);
    let p6 = chars_of("mat4");
    let r6 = chars_of("float4x4");
    replace_chars(&l5, &p6, &r6)
}

/// `map_functions` on a character vector.
pub fn map_functions_chars(l: &Vec<char>) -> (r: Vec<char>)
    ensures
        r@ == map_functions(l@),
{
    let p1 = chars_of("dFdx");
    let r1 = chars_of("dfdx");
    let l1 = replace_chars(l, &p1, &r1);
    let p2 = chars_of("dFdy");
    let r2 = chars_of("dfdy");
    replace_chars(&l1, &p2, &r2)
}

/// Rewrites every source type name in the line to its target spelling.
pub fn replace_types(l: &str) -> (r: String)
    ensures
        r@ == map_types(l@),
{
    let lv = chars_of(l);
    let rv = map_types_chars(&lv);
    string_from_chars(&rv)
}

/// Rewrites every derivative builtin name in the line to its target
/// spelling.
pub fn replace_functions(l: &str) -> (r: String)
    ensures
        r@ == map_functions(l@),
{
    let lv = chars_of(l);
    let rv = map_functions_chars(&lv);
    string_from_chars(&rv)
}

} // verus!
