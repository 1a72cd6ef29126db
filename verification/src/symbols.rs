//! Symbol definitions and call references: kinds, nesting, containment and
//! the text of signatures.
use vstd::prelude::*;
use vstd::string::*;
use crate::query::opt_view;
use crate::syntax::{node_text, text_of, SyntaxNode};
use crate::text::{chars_of, eq_str, slice_chars, string_from_chars};
use crate::type_info::{extract_type_info, spec_type_info};

verus! {

// ---------------------------------------------------------------------------
// Language registry
// ---------------------------------------------------------------------------

/// The languages for which symbols are extracted.
pub open spec fn spec_supported_languages() -> Seq<Seq<char>> {
    seq!["rust"@, "python"@, "javascript"@, "typescript"@, "tsx"@, "go"@, "c"@, "cpp"@]
}

/// Returns the list of languages for which symbol extraction is configured.
pub fn supported_languages() -> (langs: Vec<&'static str>)
    ensures
        langs@.map_values(|s: &str| s@) == spec_supported_languages(),
{
    let mut v: Vec<&'static str> = Vec::new();
    v.push("rust");
    v.push("python");
    v.push("javascript");
    v.push("typescript");
    v.push("tsx");
    v.push("go");
    v.push("c");
    v.push("cpp");
    assert(v@.map_values(|s: &str| s@) =~= spec_supported_languages());
    v
}

// ---------------------------------------------------------------------------
// Kinds
// ---------------------------------------------------------------------------

/// The language-agnostic name of a syntax node kind; unknown kinds keep their name.
pub open spec fn spec_normalize_kind(k: Seq<char>) -> Seq<char> {
    if k == "function_item"@ {
        "function"@
    } else if k == "struct_item"@ {
        "struct"@
    } else if k == "enum_item"@ {
        "enum"@
    } else if k == "trait_item"@ {
        "trait"@
    } else if k == "impl_item"@ {
        "impl"@
    } else if k == "const_item"@ {
        "const"@
    } else if k == "static_item"@ {
        "static"@
    } else if k == "mod_item"@ {
        "module"@
    } else if k == "function_definition"@ {
        "function"@
    } else if k == "class_definition"@ {
        "class"@
    } else if k == "function_declaration"@ {
        "function"@
    } else if k == "class_declaration"@ {
        "class"@
    } else if k == "method_definition"@ {
        "method"@
    } else if k == "interface_declaration"@ {
        "interface"@
    } else if k == "enum_declaration"@ {
        "enum"@
    } else if k == "type_alias_declaration"@ {
        "type_alias"@
    } else if k == "method_declaration"@ {
        "method"@
    } else if k == "type_declaration"@ || k == "type_spec"@ {
        "type"@
    } else if k == "struct_specifier"@ {
        "struct"@
    } else if k == "enum_specifier"@ {
        "enum"@
    } else if k == "class_specifier"@ {
        "class"@
    } else if k == "namespace_definition"@ {
        "namespace"@
    } else {
        k
    }
}

/// A kind with its grammar's suffix (`_item`, `_definition`, `_declaration`,
/// `_specifier`, `_spec`) after `name`.
pub open spec fn suffixed_kind(k: Seq<char>, name: Seq<char>) -> bool {
    k == name + "_item"@ || k == name + "_definition"@ || k == name + "_declaration"@ || k == name
        + "_specifier"@ || k == name + "_spec"@
}

/// The kinds of the Rust definitions that extraction looks for.
pub open spec fn rust_definition_kinds() -> Seq<Seq<char>> {
    seq!["function_item"@, "struct_item"@, "enum_item"@, "trait_item"@, "impl_item"@, "const_item"@, "static_item"@, "mod_item"@]
}

proof fn lemma_kind_literals()
    ensures
        "function_item"@ == seq!['f', 'u', 'n', 'c', 't', 'i', 'o', 'n', '_', 'i', 't', 'e', 'm'],
        "struct_item"@ == seq!['s', 't', 'r', 'u', 'c', 't', '_', 'i', 't', 'e', 'm'],
        "enum_item"@ == seq!['e', 'n', 'u', 'm', '_', 'i', 't', 'e', 'm'],
        "trait_item"@ == seq!['t', 'r', 'a', 'i', 't', '_', 'i', 't', 'e', 'm'],
        "impl_item"@ == seq!['i', 'm', 'p', 'l', '_', 'i', 't', 'e', 'm'],
        "const_item"@ == seq!['c', 'o', 'n', 's', 't', '_', 'i', 't', 'e', 'm'],
        "static_item"@ == seq!['s', 't', 'a', 't', 'i', 'c', '_', 'i', 't', 'e', 'm'],
        "mod_item"@ == seq!['m', 'o', 'd', '_', 'i', 't', 'e', 'm'],
        "function_definition"@ == seq!['f', 'u', 'n', 'c', 't', 'i', 'o', 'n', '_', 'd', 'e', 'f', 'i', 'n', 'i', 't', 'i', 'o', 'n'],
        "class_definition"@ == seq!['c', 'l', 'a', 's', 's', '_', 'd', 'e', 'f', 'i', 'n', 'i', 't', 'i', 'o', 'n'],
        "function_declaration"@ == seq!['f', 'u', 'n', 'c', 't', 'i', 'o', 'n', '_', 'd', 'e', 'c', 'l', 'a', 'r', 'a', 't', 'i', 'o', 'n'],
        "class_declaration"@ == seq!['c', 'l', 'a', 's', 's', '_', 'd', 'e', 'c', 'l', 'a', 'r', 'a', 't', 'i', 'o', 'n'],
        "method_definition"@ == seq!['m', 'e', 't', 'h', 'o', 'd', '_', 'd', 'e', 'f', 'i', 'n', 'i', 't', 'i', 'o', 'n'],
        "interface_declaration"@ == seq!['i', 'n', 't', 'e', 'r', 'f', 'a', 'c', 'e', '_', 'd', 'e', 'c', 'l', 'a', 'r', 'a', 't', 'i', 'o', 'n'],
        "enum_declaration"@ == seq!['e', 'n', 'u', 'm', '_', 'd', 'e', 'c', 'l', 'a', 'r', 'a', 't', 'i', 'o', 'n'],
        "type_alias_declaration"@ == seq!['t', 'y', 'p', 'e', '_', 'a', 'l', 'i', 'a', 's', '_', 'd', 'e', 'c', 'l', 'a', 'r', 'a', 't', 'i', 'o', 'n'],
        "method_declaration"@ == seq!['m', 'e', 't', 'h', 'o', 'd', '_', 'd', 'e', 'c', 'l', 'a', 'r', 'a', 't', 'i', 'o', 'n'],
        "type_declaration"@ == seq!['t', 'y', 'p', 'e', '_', 'd', 'e', 'c', 'l', 'a', 'r', 'a', 't', 'i', 'o', 'n'],
        "type_spec"@ == seq!['t', 'y', 'p', 'e', '_', 's', 'p', 'e', 'c'],
        "struct_specifier"@ == seq!['s', 't', 'r', 'u', 'c', 't', '_', 's', 'p', 'e', 'c', 'i', 'f', 'i', 'e', 'r'],
        "enum_specifier"@ == seq!['e', 'n', 'u', 'm', '_', 's', 'p', 'e', 'c', 'i', 'f', 'i', 'e', 'r'],
        "class_specifier"@ == seq!['c', 'l', 'a', 's', 's', '_', 's', 'p', 'e', 'c', 'i', 'f', 'i', 'e', 'r'],
        "namespace_definition"@ == seq!['n', 'a', 'm', 'e', 's', 'p', 'a', 'c', 'e', '_', 'd', 'e', 'f', 'i', 'n', 'i', 't', 'i', 'o', 'n'],
        "function"@ == seq!['f', 'u', 'n', 'c', 't', 'i', 'o', 'n'],
        "struct"@ == seq!['s', 't', 'r', 'u', 'c', 't'],
        "enum"@ == seq!['e', 'n', 'u', 'm'],
        "trait"@ == seq!['t', 'r', 'a', 'i', 't'],
        "impl"@ == seq!['i', 'm', 'p', 'l'],
        "const"@ == seq!['c', 'o', 'n', 's', 't'],
        "static"@ == seq!['s', 't', 'a', 't', 'i', 'c'],
        "module"@ == seq!['m', 'o', 'd', 'u', 'l', 'e'],
        "class"@ == seq!['c', 'l', 'a', 's', 's'],
        "method"@ == seq!['m', 'e', 't', 'h', 'o', 'd'],
        "interface"@ == seq!['i', 'n', 't', 'e', 'r', 'f', 'a', 'c', 'e'],
        "type_alias"@ == seq!['t', 'y', 'p', 'e', '_', 'a', 'l', 'i', 'a', 's'],
        "type"@ == seq!['t', 'y', 'p', 'e'],
        "namespace"@ == seq!['n', 'a', 'm', 'e', 's', 'p', 'a', 'c', 'e'],
        "_item"@ == seq!['_', 'i', 't', 'e', 'm'],
        "_definition"@ == seq!['_', 'd', 'e', 'f', 'i', 'n', 'i', 't', 'i', 'o', 'n'],
        "_declaration"@ == seq!['_', 'd', 'e', 'c', 'l', 'a', 'r', 'a', 't', 'i', 'o', 'n'],
        "_specifier"@ == seq!['_', 's', 'p', 'e', 'c', 'i', 'f', 'i', 'e', 'r'],
        "_spec"@ == seq!['_', 's', 'p', 'e', 'c'],
        "mod"@ == seq!['m', 'o', 'd'],
{
    reveal_strlit("function_item");
    reveal_strlit("struct_item");
    reveal_strlit("enum_item");
    reveal_strlit("trait_item");
    reveal_strlit("impl_item");
    reveal_strlit("const_item");
    reveal_strlit("static_item");
    reveal_strlit("mod_item");
    reveal_strlit("function_definition");
    reveal_strlit("class_definition");
    reveal_strlit("function_declaration");
    reveal_strlit("class_declaration");
    reveal_strlit("method_definition");
    reveal_strlit("interface_declaration");
    reveal_strlit("enum_declaration");
    reveal_strlit("type_alias_declaration");
    reveal_strlit("method_declaration");
    reveal_strlit("type_declaration");
    reveal_strlit("type_spec");
    reveal_strlit("struct_specifier");
    reveal_strlit("enum_specifier");
    reveal_strlit("class_specifier");
    reveal_strlit("namespace_definition");
    reveal_strlit("function");
    reveal_strlit("struct");
    reveal_strlit("enum");
    reveal_strlit("trait");
    reveal_strlit("impl");
    reveal_strlit("const");
    reveal_strlit("static");
    reveal_strlit("module");
    reveal_strlit("class");
    reveal_strlit("method");
    reveal_strlit("interface");
    reveal_strlit("type_alias");
    reveal_strlit("type");
    reveal_strlit("namespace");
    reveal_strlit("_item");
    reveal_strlit("_definition");
    reveal_strlit("_declaration");
    reveal_strlit("_specifier");
    reveal_strlit("_spec");
    reveal_strlit("mod");
}

/// Normalizing a kind drops its grammar's suffix: the normalized kind is the
/// node kind without `_item`, `_definition`, `_declaration`, `_specifier` or
/// `_spec`, except that a Rust `mod_item` is a `module`; unknown kinds are
/// kept as they are.
pub proof fn law_normalized_kind_drops_the_grammar_suffix(k: Seq<char>)
    ensures
        spec_normalize_kind(k) == k || suffixed_kind(k, spec_normalize_kind(k)) || (k == "mod_item"@
            && spec_normalize_kind(k) == "module"@),
{
    lemma_kind_literals();
    assert("function"@ + "_item"@ =~= "function_item"@);
    assert("struct"@ + "_item"@ =~= "struct_item"@);
    assert("enum"@ + "_item"@ =~= "enum_item"@);
    assert("trait"@ + "_item"@ =~= "trait_item"@);
    assert("impl"@ + "_item"@ =~= "impl_item"@);
    assert("const"@ + "_item"@ =~= "const_item"@);
    assert("static"@ + "_item"@ =~= "static_item"@);
    assert("function"@ + "_definition"@ =~= "function_definition"@);
    assert("class"@ + "_definition"@ =~= "class_definition"@);
    assert("function"@ + "_declaration"@ =~= "function_declaration"@);
    assert("class"@ + "_declaration"@ =~= "class_declaration"@);
    assert("method"@ + "_definition"@ =~= "method_definition"@);
    assert("interface"@ + "_declaration"@ =~= "interface_declaration"@);
    assert("enum"@ + "_declaration"@ =~= "enum_declaration"@);
    assert("type_alias"@ + "_declaration"@ =~= "type_alias_declaration"@);
    assert("method"@ + "_declaration"@ =~= "method_declaration"@);
    assert("type"@ + "_declaration"@ =~= "type_declaration"@);
    assert("type"@ + "_spec"@ =~= "type_spec"@);
    assert("struct"@ + "_specifier"@ =~= "struct_specifier"@);
    assert("enum"@ + "_specifier"@ =~= "enum_specifier"@);
    assert("class"@ + "_specifier"@ =~= "class_specifier"@);
    assert("namespace"@ + "_definition"@ =~= "namespace_definition"@);
}

/// Distinct Rust definition kinds normalize to distinct kinds (an enum is
/// never reported as a struct, nor a trait as an impl).
pub proof fn law_rust_definition_kinds_stay_distinct(i: int, j: int)
    requires
        0 <= i < rust_definition_kinds().len(),
        0 <= j < rust_definition_kinds().len(),
        i != j,
    ensures
        spec_normalize_kind(rust_definition_kinds()[i]) != spec_normalize_kind(rust_definition_kinds()[j]),
{
    lemma_kind_literals();
}

/// Map syntax node kind strings to consistent, language-agnostic kind names.
pub fn normalize_kind(ts_kind: &str) -> (r: String)
    ensures
        r@ == spec_normalize_kind(ts_kind@),
{
    let k = chars_of(ts_kind);
    let k = k.as_slice();
    if eq_str(k, "function_item") {
        "function".to_owned()
    } else if eq_str(k, "struct_item") {
        "struct".to_owned()
    } else if eq_str(k, "enum_item") {
        "enum".to_owned()
    } else if eq_str(k, "trait_item") {
        "trait".to_owned()
    } else if eq_str(k, "impl_item") {
        "impl".to_owned()
    } else if eq_str(k, "const_item") {
        "const".to_owned()
    } else if eq_str(k, "static_item") {
        "static".to_owned()
    } else if eq_str(k, "mod_item") {
        "module".to_owned()
    } else if eq_str(k, "function_definition") {
        "function".to_owned()
    } else if eq_str(k, "class_definition") {
        "class".to_owned()
    } else if eq_str(k, "function_declaration") {
        "function".to_owned()
    } else if eq_str(k, "class_declaration") {
        "class".to_owned()
    } else if eq_str(k, "method_definition") {
        "method".to_owned()
    } else if eq_str(k, "interface_declaration") {
        "interface".to_owned()
    } else if eq_str(k, "enum_declaration") {
        "enum".to_owned()
    } else if eq_str(k, "type_alias_declaration") {
        "type_alias".to_owned()
    } else if eq_str(k, "method_declaration") {
        "method".to_owned()
    } else if eq_str(k, "type_declaration") || eq_str(k, "type_spec") {
        "type".to_owned()
    } else if eq_str(k, "struct_specifier") {
        "struct".to_owned()
    } else if eq_str(k, "enum_specifier") {
        "enum".to_owned()
    } else if eq_str(k, "class_specifier") {
        "class".to_owned()
    } else if eq_str(k, "namespace_definition") {
        "namespace".to_owned()
    } else {
        ts_kind.to_owned()
    }
}

/// Whether a node kind is a function-like definition.
pub open spec fn spec_is_function_like(k: Seq<char>) -> bool {
    k == "function_item"@ || k == "function_definition"@ || k == "function_declaration"@ || k
        == "method_definition"@ || k == "method_declaration"@
}

/// Check if a node kind represents a function-like definition.
pub fn is_function_like(kind: &str) -> (b: bool)
    ensures
        b == spec_is_function_like(kind@),
{
    let k = chars_of(kind);
    let k = k.as_slice();
    eq_str(k, "function_item") || eq_str(k, "function_definition") || eq_str(
        k,
        "function_declaration",
    ) || eq_str(k, "method_definition") || eq_str(k, "method_declaration")
}

// ---------------------------------------------------------------------------
// Whitespace
// ---------------------------------------------------------------------------

/// The Unicode `White_Space` property (`char::is_whitespace`).
pub open spec fn is_ws(c: char) -> bool {
    ('\u{9}' <= c && c <= '\u{d}') || c == ' ' || c == '\u{85}' || c == '\u{a0}' || c
        == '\u{1680}' || ('\u{2000}' <= c && c <= '\u{200a}') || c == '\u{2028}' || c
        == '\u{2029}' || c == '\u{202f}' || c == '\u{205f}' || c == '\u{3000}'
}

/// Whether a character is white space (`char::is_whitespace`).
pub fn is_whitespace(c: char) -> (b: bool)
    ensures
        b == is_ws(c),
{
    ('\u{9}' <= c && c <= '\u{d}') || c == ' ' || c == '\u{85}' || c == '\u{a0}' || c
        == '\u{1680}' || ('\u{2000}' <= c && c <= '\u{200a}') || c == '\u{2028}' || c
        == '\u{2029}' || c == '\u{202f}' || c == '\u{205f}' || c == '\u{3000}'
}

/// `s` with each run of white space replaced by one space; `prev_ws` tells
/// whether the character before `s` was white space.
pub open spec fn collapse_from(s: Seq<char>, prev_ws: bool) -> Seq<char>
    decreases s.len(),
{
    if s.len() == 0 {
        Seq::empty()
    } else if is_ws(s[0]) {
        if prev_ws {
            collapse_from(s.drop_first(), true)
        } else {
            seq![' '] + collapse_from(s.drop_first(), true)
        }
    } else {
        seq![s[0]] + collapse_from(s.drop_first(), false)
    }
}

/// Number of leading white-space characters.
pub open spec fn leading_ws(s: Seq<char>) -> int
    decreases s.len(),
{
    if s.len() > 0 && is_ws(s[0]) {
        1 + leading_ws(s.drop_first())
    } else {
        0
    }
}

/// Number of trailing white-space characters.
pub open spec fn trailing_ws(s: Seq<char>) -> int
    decreases s.len(),
{
    if s.len() > 0 && is_ws(s.last()) {
        1 + trailing_ws(s.drop_last())
    } else {
        0
    }
}

/// `s` without leading and trailing white space (`str::trim`).
pub open spec fn trim_ws(s: Seq<char>) -> Seq<char> {
    let t = s.skip(leading_ws(s));
    t.take(t.len() - trailing_ws(t))
}

/// Collapse runs of white space (including newlines) into single spaces, then trim.
pub open spec fn spec_collapse_whitespace(s: Seq<char>) -> Seq<char> {
    trim_ws(collapse_from(s, false))
}

proof fn lemma_leading_ws(s: Seq<char>)
    ensures
        0 <= leading_ws(s) <= s.len(),
        forall|j: int| 0 <= j < leading_ws(s) ==> is_ws(s[j]),
        leading_ws(s) < s.len() ==> !is_ws(s[leading_ws(s)]),
    decreases s.len(),
{
    if s.len() > 0 && is_ws(s[0]) {
        lemma_leading_ws(s.drop_first());
        assert forall|j: int| 0 <= j < leading_ws(s) implies is_ws(s[j]) by {
            if j > 0 {
                assert(s[j] == s.drop_first()[j - 1]);
            }
        }
    }
}

proof fn lemma_trailing_ws(s: Seq<char>)
    ensures
        0 <= trailing_ws(s) <= s.len(),
        forall|j: int| s.len() - trailing_ws(s) <= j < s.len() ==> is_ws(s[j]),
        trailing_ws(s) < s.len() ==> !is_ws(s[s.len() - trailing_ws(s) - 1]),
    decreases s.len(),
{
    if s.len() > 0 && is_ws(s.last()) {
        lemma_trailing_ws(s.drop_last());
        assert forall|j: int| s.len() - trailing_ws(s) <= j < s.len() implies is_ws(s[j]) by {
            if j < s.len() - 1 {
                assert(s[j] == s.drop_last()[j]);
            }
        }
    }
}

/// No white space but single spaces, never two in a row.
pub open spec fn single_spaced(s: Seq<char>) -> bool {
    &&& forall|j: int| 0 <= j < s.len() && is_ws(#[trigger] s[j]) ==> s[j] == ' '
    &&& forall|j: int| 0 <= j < s.len() - 1 && is_ws(#[trigger] s[j]) ==> !is_ws(s[j + 1])
}

proof fn lemma_collapse_from(s: Seq<char>, prev_ws: bool)
    ensures
        single_spaced(collapse_from(s, prev_ws)),
        prev_ws && collapse_from(s, prev_ws).len() > 0 ==> !is_ws(collapse_from(s, prev_ws)[0]),
    decreases s.len(),
{
    let out = collapse_from(s, prev_ws);
    if s.len() > 0 {
        let rest = collapse_from(s.drop_first(), is_ws(s[0]));
        lemma_collapse_from(s.drop_first(), is_ws(s[0]));
        if is_ws(s[0]) && prev_ws {
            assert(out == rest);
        } else {
            let head = if is_ws(s[0]) {
                ' '
            } else {
                s[0]
            };
            assert(out == seq![head] + rest);
            assert forall|j: int| 0 <= j < out.len() && is_ws(#[trigger] out[j]) implies out[j]
                == ' ' by {
                if j > 0 {
                    assert(out[j] == rest[j - 1]);
                }
            }
            assert forall|j: int| 0 <= j < out.len() - 1 && is_ws(#[trigger] out[j]) implies !is_ws(
                out[j + 1],
            ) by {
                assert(out[j + 1] == rest[j]);
                if j > 0 {
                    assert(out[j] == rest[j - 1]);
                }
            }
        }
    }
}

/// The collapsed text has no white space at either end, and inside it only
/// single spaces, never two in a row.
pub proof fn law_collapsed_whitespace_is_single_spaced(s: Seq<char>)
    ensures
        single_spaced(spec_collapse_whitespace(s)),
        spec_collapse_whitespace(s).len() > 0 ==> !is_ws(spec_collapse_whitespace(s)[0]) && !is_ws(
            spec_collapse_whitespace(s).last(),
        ),
{
    let out = collapse_from(s, false);
    lemma_collapse_from(s, false);
    lemma_leading_ws(out);
    let t = out.skip(leading_ws(out));
    lemma_trailing_ws(t);
    let r = t.take(t.len() - trailing_ws(t));
    assert(r == spec_collapse_whitespace(s));
    let off = leading_ws(out);
    assert forall|j: int| 0 <= j < r.len() && is_ws(#[trigger] r[j]) implies r[j] == ' ' by {
        assert(r[j] == out[j + off]);
    }
    assert forall|j: int| 0 <= j < r.len() - 1 && is_ws(#[trigger] r[j]) implies !is_ws(r[j + 1]) by {
        assert(r[j] == out[j + off]);
        assert(r[j + 1] == out[j + 1 + off]);
    }
    if r.len() > 0 {
        assert(r[0] == out[off]);
        assert(r.last() == t[t.len() - trailing_ws(t) - 1]);
    }
}

/// The characters of `s` that are not white space, in order.
pub open spec fn non_ws(s: Seq<char>) -> Seq<char>
    decreases s.len(),
{
    if s.len() == 0 {
        Seq::empty()
    } else if is_ws(s[0]) {
        non_ws(s.drop_first())
    } else {
        seq![s[0]] + non_ws(s.drop_first())
    }
}

proof fn lemma_non_ws_concat(a: Seq<char>, b: Seq<char>)
    ensures
        non_ws(a + b) == non_ws(a) + non_ws(b),
    decreases a.len(),
{
    if a.len() > 0 {
        lemma_non_ws_concat(a.drop_first(), b);
        assert((a + b).drop_first() =~= a.drop_first() + b);
        assert((a + b)[0] == a[0]);
        if !is_ws(a[0]) {
            assert(seq![a[0]] + (non_ws(a.drop_first()) + non_ws(b)) =~= (seq![a[0]] + non_ws(
                a.drop_first(),
            )) + non_ws(b));
        }
    } else {
        assert(a + b =~= b);
    }
}

proof fn lemma_non_ws_of_ws(a: Seq<char>)
    requires
        forall|j: int| 0 <= j < a.len() ==> is_ws(#[trigger] a[j]),
    ensures
        non_ws(a) == Seq::<char>::empty(),
    decreases a.len(),
{
    if a.len() > 0 {
        assert(is_ws(a[0]));
        assert forall|j: int| 0 <= j < a.drop_first().len() implies is_ws(#[trigger] a.drop_first()[j]) by {
            assert(a.drop_first()[j] == a[j + 1]);
        }
        lemma_non_ws_of_ws(a.drop_first());
    }
}

proof fn lemma_collapse_keeps_non_ws(s: Seq<char>, prev_ws: bool)
    ensures
        non_ws(collapse_from(s, prev_ws)) == non_ws(s),
    decreases s.len(),
{
    if s.len() > 0 {
        lemma_collapse_keeps_non_ws(s.drop_first(), is_ws(s[0]));
        let rest = collapse_from(s.drop_first(), is_ws(s[0]));
        if is_ws(s[0]) && !prev_ws {
            let out = seq![' '] + rest;
            assert(out.drop_first() =~= rest);
            assert(is_ws(out[0]));
        } else if !is_ws(s[0]) {
            let out = seq![s[0]] + rest;
            assert(out.drop_first() =~= rest);
            assert(out[0] == s[0]);
        }
    }
}

/// Collapsing white space keeps every other character, in order.
pub proof fn law_collapse_keeps_other_characters(s: Seq<char>)
    ensures
        non_ws(spec_collapse_whitespace(s)) == non_ws(s),
{
    let out = collapse_from(s, false);
    lemma_collapse_keeps_non_ws(s, false);
    lemma_leading_ws(out);
    let k = leading_ws(out);
    let t = out.skip(k);
    lemma_trailing_ws(t);
    let m = t.len() - trailing_ws(t);
    let r = t.take(m);
    assert(out =~= out.take(k) + t);
    assert forall|j: int| 0 <= j < out.take(k).len() implies is_ws(#[trigger] out.take(k)[j]) by {}
    lemma_non_ws_of_ws(out.take(k));
    lemma_non_ws_concat(out.take(k), t);
    assert(t =~= r + t.skip(m));
    assert forall|j: int| 0 <= j < t.skip(m).len() implies is_ws(#[trigger] t.skip(m)[j]) by {
        assert(t.skip(m)[j] == t[j + m]);
    }
    lemma_non_ws_of_ws(t.skip(m));
    lemma_non_ws_concat(r, t.skip(m));
    assert(non_ws(out.take(k)) + non_ws(t) =~= non_ws(t));
    assert(non_ws(r) + non_ws(t.skip(m)) =~= non_ws(r));
}

proof fn lemma_collapse_single_spaced(x: Seq<char>, prev_ws: bool)
    requires
        single_spaced(x),
        prev_ws && x.len() > 0 ==> !is_ws(x[0]),
    ensures
        collapse_from(x, prev_ws) == x,
    decreases x.len(),
{
    if x.len() > 0 {
        let rest = x.drop_first();
        assert forall|j: int| 0 <= j < rest.len() && is_ws(#[trigger] rest[j]) implies rest[j] == ' ' by {
            assert(rest[j] == x[j + 1]);
        }
        assert forall|j: int| 0 <= j < rest.len() - 1 && is_ws(#[trigger] rest[j]) implies !is_ws(
            rest[j + 1],
        ) by {
            assert(rest[j] == x[j + 1]);
            assert(rest[j + 1] == x[j + 2]);
        }
        if rest.len() > 0 && is_ws(x[0]) {
            assert(is_ws(x[0]) ==> !is_ws(x[1]));
            assert(rest[0] == x[1]);
        }
        lemma_collapse_single_spaced(rest, is_ws(x[0]));
        if is_ws(x[0]) {
            assert(x[0] == ' ');
        }
        assert(x =~= seq![x[0]] + rest);
    }
}

/// Collapsing white space twice is collapsing it once.
pub proof fn law_collapse_whitespace_is_idempotent(s: Seq<char>)
    ensures
        spec_collapse_whitespace(spec_collapse_whitespace(s)) == spec_collapse_whitespace(s),
{
    let r = spec_collapse_whitespace(s);
    law_collapsed_whitespace_is_single_spaced(s);
    lemma_collapse_single_spaced(r, false);
    if r.len() > 0 {
        assert(!is_ws(r[0]));
        assert(!is_ws(r.last()));
    }
    assert(leading_ws(r) == 0);
    assert(trailing_ws(r) == 0);
    assert(r.skip(0) =~= r);
    assert(r.take(r.len() as int) =~= r);
}

/// Exec `str::trim` on a character sequence.
pub fn trim_ws_chars(v: &[char]) -> (r: Vec<char>)
    ensures
        r@ == trim_ws(v@),
{
    proof {
        lemma_leading_ws(v@);
    }
    let mut start: usize = 0;
    while start < v.len() && is_whitespace(v[start])
        invariant
            start <= v.len(),
            start <= leading_ws(v@),
            0 <= leading_ws(v@) <= v@.len(),
            forall|j: int| 0 <= j < leading_ws(v@) ==> is_ws(v@[j]),
            leading_ws(v@) < v@.len() ==> !is_ws(v@[leading_ws(v@)]),
        decreases v.len() - start,
    {
        start = start + 1;
    }
    assert(start == leading_ws(v@));
    let ghost t = v@.skip(start as int);
    proof {
        lemma_trailing_ws(t);
    }
    let mut end: usize = v.len();
    while end > start && is_whitespace(v[end - 1])
        invariant
            start <= end <= v.len(),
            t == v@.skip(start as int),
            end - start >= t.len() - trailing_ws(t),
            0 <= trailing_ws(t) <= t.len(),
            forall|j: int| t.len() - trailing_ws(t) <= j < t.len() ==> is_ws(t[j]),
            trailing_ws(t) < t.len() ==> !is_ws(t[t.len() - trailing_ws(t) - 1]),
        decreases end - start,
    {
        assert(t[end - 1 - start] == v@[end - 1]);
        end = end - 1;
    }
    proof {
        if end > start {
            assert(t[end - 1 - start] == v@[end - 1]);
        }
        assert(end - start == t.len() - trailing_ws(t));
        assert(v@.subrange(start as int, end as int) =~= t.take(t.len() - trailing_ws(t)));
    }
    slice_chars(v, start, end)
}

/// Collapse runs of white space in a character sequence into single spaces, then trim.
pub fn collapse_whitespace_chars(v: &[char]) -> (r: Vec<char>)
    ensures
        r@ == spec_collapse_whitespace(v@),
{
    let mut out: Vec<char> = Vec::new();
    let mut prev_ws = false;
    let mut i: usize = 0;
    assert(v@.skip(0) =~= v@);
    while i < v.len()
        invariant
            i <= v.len(),
            out@ + collapse_from(v@.skip(i as int), prev_ws) == collapse_from(v@, false),
        decreases v.len() - i,
    {
        let c = v[i];
        let ghost rest = v@.skip(i as int);
        let ghost before = out@;
        assert(rest[0] == c);
        assert(rest.drop_first() =~= v@.skip(i + 1));
        if is_whitespace(c) {
            if !prev_ws {
                out.push(' ');
                prev_ws = true;
                assert(before + (seq![' '] + collapse_from(v@.skip(i + 1), true)) =~= out@
                    + collapse_from(v@.skip(i + 1), prev_ws));
            }
        } else {
            out.push(c);
            prev_ws = false;
            assert(before + (seq![c] + collapse_from(v@.skip(i + 1), false)) =~= out@
                + collapse_from(v@.skip(i + 1), prev_ws));
        }
        i = i + 1;
    }
    assert(out@ =~= collapse_from(v@, false));
    trim_ws_chars(&out)
}

/// Collapse consecutive whitespace (including newlines) into single spaces, then trim.
pub fn collapse_whitespace(s: &str) -> (r: String)
    ensures
        r@ == spec_collapse_whitespace(s@),
{
    let v = chars_of(s);
    let t = collapse_whitespace_chars(&v);
    string_from_chars(&t)
}

// ---------------------------------------------------------------------------
// Extracted definitions and references
// ---------------------------------------------------------------------------

/// A symbol definition extracted from source code.
#[derive(Debug)]
pub struct ExtractedSymbol {
    pub name: String,
    pub kind: String,
    pub line: usize,
    pub col: usize,
    pub end_line: usize,
    pub end_col: usize,
    pub start_byte: usize,
    pub end_byte: usize,
    /// Index into the symbols vec of the parent symbol, if this symbol is nested.
    pub parent_index: Option<usize>,
    /// Full signature text (e.g., `fn hello(x: i32) -> String`).
    pub signature: Option<String>,
    /// Return type for functions (e.g., `String`, `Option<i32>`).
    pub return_type: Option<String>,
    /// Parameter list text (e.g., `x: i32, y: &str`).
    pub params: Option<String>,
}

/// The value of an extracted symbol.
pub struct SymbolView {
    pub name: Seq<char>,
    pub kind: Seq<char>,
    pub line: usize,
    pub col: usize,
    pub end_line: usize,
    pub end_col: usize,
    pub start_byte: usize,
    pub end_byte: usize,
    pub parent_index: Option<usize>,
    pub signature: Option<Seq<char>>,
    pub return_type: Option<Seq<char>>,
    pub params: Option<Seq<char>>,
}

impl View for ExtractedSymbol {
    type V = SymbolView;

    open spec fn view(&self) -> SymbolView {
        SymbolView {
            name: self.name@,
            kind: self.kind@,
            line: self.line,
            col: self.col,
            end_line: self.end_line,
            end_col: self.end_col,
            start_byte: self.start_byte,
            end_byte: self.end_byte,
            parent_index: self.parent_index,
            signature: opt_view(self.signature),
            return_type: opt_view(self.return_type),
            params: opt_view(self.params),
        }
    }
}

/// The values of a sequence of extracted symbols.
pub open spec fn symbols_view(v: Seq<ExtractedSymbol>) -> Seq<SymbolView> {
    v.map_values(|s: ExtractedSymbol| s@)
}

/// A reference (call site) extracted from source code.
#[derive(Debug)]
pub struct ExtractedRef {
    pub ref_name: String,
    pub kind: String,
    pub line: usize,
    pub col: usize,
    /// Index into the symbols vec of the containing symbol definition.
    pub containing_symbol_index: Option<usize>,
}

/// The value of an extracted reference.
pub struct RefView {
    pub ref_name: Seq<char>,
    pub kind: Seq<char>,
    pub line: usize,
    pub col: usize,
    pub containing_symbol_index: Option<usize>,
}

impl View for ExtractedRef {
    type V = RefView;

    open spec fn view(&self) -> RefView {
        RefView {
            ref_name: self.ref_name@,
            kind: self.kind@,
            line: self.line,
            col: self.col,
            containing_symbol_index: self.containing_symbol_index,
        }
    }
}

/// The values of a sequence of extracted references.
pub open spec fn refs_view(v: Seq<ExtractedRef>) -> Seq<RefView> {
    v.map_values(|r: ExtractedRef| r@)
}

/// One captured node of a query match, with the index of its capture name.
#[derive(Debug)]
pub struct QueryCapture {
    pub index: u32,
    pub node: SyntaxNode,
}

// ---------------------------------------------------------------------------
// From query matches to symbols
// ---------------------------------------------------------------------------

/// Position of the last capture with capture index `k` in a match.
pub open spec fn last_capture(m: Seq<QueryCapture>, k: u32) -> Option<int>
    decreases m.len(),
{
    if m.len() == 0 {
        None
    } else if m.last().index == k {
        Some(m.len() - 1)
    } else {
        last_capture(m.drop_last(), k)
    }
}

pub(crate) proof fn lemma_last_capture(m: Seq<QueryCapture>, k: u32)
    ensures
        last_capture(m, k) matches Some(i) ==> 0 <= i < m.len() && m[i].index == k,
    decreases m.len(),
{
    if m.len() > 0 && m.last().index != k {
        lemma_last_capture(m.drop_last(), k);
    }
}

/// Position of the last capture with capture index `k` in a match.
pub fn find_last_capture(m: &Vec<QueryCapture>, k: u32) -> (r: Option<usize>)
    ensures
        match r {
            Some(i) => last_capture(m@, k) == Some(i as int) && i < m.len(),
            None => last_capture(m@, k) is None,
        },
{
    let mut best: Option<usize> = None;
    let mut i: usize = 0;
    while i < m.len()
        invariant
            i <= m.len(),
            match best {
                Some(b) => last_capture(m@.take(i as int), k) == Some(b as int) && b < i,
                None => last_capture(m@.take(i as int), k) is None,
            },
        decreases m.len() - i,
    {
        assert(m@.take(i + 1).drop_last() =~= m@.take(i as int));
        if m[i].index == k {
            best = Some(i);
        }
        i = i + 1;
    }
    assert(m@.take(m.len() as int) =~= m@);
    best
}

/// A zero-based position made one-based, where that does not overflow.
pub open spec fn fits_one_based(x: usize) -> bool {
    x < usize::MAX
}

/// The symbol that a definition match yields: its name is the text of the
/// last `name` capture, its node the last `def` capture; positions are
/// one-based.
pub open spec fn spec_symbol_from_match(
    src: Seq<char>,
    lang: Seq<char>,
    m: Seq<QueryCapture>,
    name_idx: u32,
    def_idx: u32,
) -> Option<SymbolView> {
    match (last_capture(m, name_idx), last_capture(m, def_idx)) {
        (Some(ni), Some(di)) => {
            let def = m[di].node;
            match node_text(src, m[ni].node) {
                Some(name) => if fits_one_based(def.start_row) && fits_one_based(def.start_col)
                    && fits_one_based(def.end_row) && fits_one_based(def.end_col) {
                    let ti = spec_type_info(src, def, lang);
                    Some(
                        SymbolView {
                            name,
                            kind: spec_normalize_kind(def.kind@),
                            line: (def.start_row + 1) as usize,
                            col: (def.start_col + 1) as usize,
                            end_line: (def.end_row + 1) as usize,
                            end_col: (def.end_col + 1) as usize,
                            start_byte: def.start_byte,
                            end_byte: def.end_byte,
                            parent_index: None,
                            signature: ti.0,
                            return_type: ti.1,
                            params: ti.2,
                        },
                    )
                } else {
                    None
                },
                None => None,
            }
        },
        _ => None,
    }
}

/// The symbol a definition match yields, if it has a name and a definition node.
pub fn symbol_from_match(
    m: &Vec<QueryCapture>,
    name_idx: u32,
    def_idx: u32,
    source: &str,
    language: &str,
) -> (r: Option<ExtractedSymbol>)
    ensures
        match r {
            Some(s) => spec_symbol_from_match(source@, language@, m@, name_idx, def_idx) == Some(
                s@,
            ),
            None => spec_symbol_from_match(source@, language@, m@, name_idx, def_idx) is None,
        },
{
    let ni = find_last_capture(m, name_idx);
    let di = find_last_capture(m, def_idx);
    match (ni, di) {
        (Some(ni), Some(di)) => {
            let def = &m[di].node;
            let name_node = &m[ni].node;
            match text_of(source, name_node.start_byte, name_node.end_byte) {
                Some(name) => {
                    if def.start_row < usize::MAX && def.start_col < usize::MAX && def.end_row
                        < usize::MAX && def.end_col < usize::MAX {
                        let (signature, return_type, params) = extract_type_info(
                            def,
                            source,
                            language,
                        );
                        Some(
                            ExtractedSymbol {
                                name,
                                kind: normalize_kind(def.kind.as_str()),
                                line: def.start_row + 1,
                                col: def.start_col + 1,
                                end_line: def.end_row + 1,
                                end_col: def.end_col + 1,
                                start_byte: def.start_byte,
                                end_byte: def.end_byte,
                                parent_index: None,
                                signature,
                                return_type,
                                params,
                            },
                        )
                    } else {
                        None
                    }
                },
                None => None,
            }
        },
        _ => None,
    }
}

/// The symbols that a sequence of definition matches yields, in match order.
pub open spec fn collected_symbols(
    src: Seq<char>,
    lang: Seq<char>,
    ms: Seq<Vec<QueryCapture>>,
    name_idx: u32,
    def_idx: u32,
) -> Seq<SymbolView>
    decreases ms.len(),
{
    if ms.len() == 0 {
        Seq::empty()
    } else {
        let prev = collected_symbols(src, lang, ms.drop_last(), name_idx, def_idx);
        match spec_symbol_from_match(src, lang, ms.last()@, name_idx, def_idx) {
            Some(s) => prev.push(s),
            None => prev,
        }
    }
}

fn collect_symbols(
    matches: &Vec<Vec<QueryCapture>>,
    name_idx: u32,
    def_idx: u32,
    source: &str,
    language: &str,
) -> (r: Vec<ExtractedSymbol>)
    ensures
        symbols_view(r@) == collected_symbols(source@, language@, matches@, name_idx, def_idx),
{
    let mut out: Vec<ExtractedSymbol> = Vec::new();
    let mut i: usize = 0;
    while i < matches.len()
        invariant
            i <= matches.len(),
            symbols_view(out@) == collected_symbols(
                source@,
                language@,
                matches@.take(i as int),
                name_idx,
                def_idx,
            ),
        decreases matches.len() - i,
    {
        assert(matches@.take(i + 1).drop_last() =~= matches@.take(i as int));
        let s = symbol_from_match(&matches[i], name_idx, def_idx, source, language);
        let ghost before = out@;
        if let Some(sym) = s {
            out.push(sym);
            assert(symbols_view(out@) =~= symbols_view(before).push(out@.last()@));
        }
        i = i + 1;
    }
    assert(matches@.take(matches.len() as int) =~= matches@);
    out
}

// ---------------------------------------------------------------------------
// Ordering by position
// ---------------------------------------------------------------------------

/// Whether `a` sorts strictly before `b`: by start byte, and of two symbols
/// starting together, the longer first.
pub open spec fn sorts_before(a: SymbolView, b: SymbolView) -> bool {
    a.start_byte < b.start_byte || (a.start_byte == b.start_byte && a.end_byte > b.end_byte)
}

/// `x` inserted into `s` before the first element that it sorts before.
pub open spec fn insert_sorted(s: Seq<SymbolView>, x: SymbolView) -> Seq<SymbolView>
    decreases s.len(),
{
    if s.len() == 0 {
        seq![x]
    } else if sorts_before(x, s[0]) {
        seq![x] + s
    } else {
        seq![s[0]] + insert_sorted(s.drop_first(), x)
    }
}

/// The symbols in stable order of (start byte ascending, end byte descending).
pub open spec fn sort_symbols(s: Seq<SymbolView>) -> Seq<SymbolView>
    decreases s.len(),
{
    if s.len() == 0 {
        s
    } else {
        insert_sorted(sort_symbols(s.drop_last()), s.last())
    }
}

/// No symbol sorts before one that precedes it.
pub open spec fn sorted_by_position(s: Seq<SymbolView>) -> bool {
    forall|i: int, j: int| 0 <= i < j < s.len() ==> !sorts_before(#[trigger] s[j], #[trigger] s[i])
}

proof fn lemma_insert_at(s: Seq<SymbolView>, x: SymbolView, p: int)
    requires
        0 <= p <= s.len(),
        forall|j: int| 0 <= j < p ==> !sorts_before(x, #[trigger] s[j]),
        p < s.len() ==> sorts_before(x, s[p]),
    ensures
        insert_sorted(s, x) == s.insert(p, x),
    decreases s.len(),
{
    if s.len() == 0 {
        assert(s.insert(p, x) =~= seq![x]);
    } else if p == 0 {
        assert(s.insert(p, x) =~= seq![x] + s);
    } else {
        let t = s.drop_first();
        assert forall|j: int| 0 <= j < p - 1 implies !sorts_before(x, #[trigger] t[j]) by {
            assert(t[j] == s[j + 1]);
        }
        if p - 1 < t.len() {
            assert(t[p - 1] == s[p]);
        }
        lemma_insert_at(t, x, p - 1);
        assert(seq![s[0]] + t.insert(p - 1, x) =~= s.insert(p, x));
    }
}

proof fn lemma_insert_sorted_sorted(s: Seq<SymbolView>, x: SymbolView)
    requires
        sorted_by_position(s),
    ensures
        sorted_by_position(insert_sorted(s, x)),
        insert_sorted(s, x).len() == s.len() + 1,
        insert_sorted(s, x).to_multiset() == s.to_multiset().insert(x),
    decreases s.len(),
{
    broadcast use vstd::seq_lib::group_to_multiset_ensures;

    let r = insert_sorted(s, x);
    if s.len() == 0 {
        assert(r =~= seq![x]);
        assert(s =~= Seq::<SymbolView>::empty());
    } else if sorts_before(x, s[0]) {
        assert(r =~= seq![x] + s);
        assert forall|i: int, j: int| 0 <= i < j < r.len() implies !sorts_before(
            #[trigger] r[j],
            #[trigger] r[i],
        ) by {
            if i == 0 {
                assert(r[j] == s[j - 1]);
                assert(!sorts_before(s[j - 1], s[0]) || j - 1 == 0);
            } else {
                assert(r[i] == s[i - 1]);
                assert(r[j] == s[j - 1]);
            }
        }
        assert(r =~= s.insert(0, x));
    } else {
        let t = s.drop_first();
        assert forall|i: int, j: int| 0 <= i < j < t.len() implies !sorts_before(
            #[trigger] t[j],
            #[trigger] t[i],
        ) by {
            assert(t[i] == s[i + 1]);
            assert(t[j] == s[j + 1]);
        }
        lemma_insert_sorted_sorted(t, x);
        let rt = insert_sorted(t, x);
        assert(r =~= seq![s[0]] + rt);
        assert forall|i: int, j: int| 0 <= i < j < r.len() implies !sorts_before(
            #[trigger] r[j],
            #[trigger] r[i],
        ) by {
            if i == 0 {
                assert(r[j] == rt[j - 1]);
                assert(rt.to_multiset().count(rt[j - 1]) > 0);
                assert(t.to_multiset().insert(x).count(rt[j - 1]) > 0);
                if rt[j - 1] != x {
                    assert(t.to_multiset().count(rt[j - 1]) > 0);
                    assert(t.contains(rt[j - 1]));
                    let k = choose|k: int| 0 <= k < t.len() && t[k] == rt[j - 1];
                    assert(s[k + 1] == t[k]);
                }
            } else {
                assert(r[i] == rt[i - 1]);
                assert(r[j] == rt[j - 1]);
            }
        }
        assert(s =~= t.insert(0, s[0]));
        assert(r =~= rt.insert(0, s[0]));
        vstd::seq_lib::to_multiset_insert(t, 0, s[0]);
        vstd::seq_lib::to_multiset_insert(rt, 0, s[0]);
        assert(r.to_multiset() =~= s.to_multiset().insert(x));
    }
}

proof fn lemma_sort_symbols(s: Seq<SymbolView>)
    ensures
        sorted_by_position(sort_symbols(s)),
        sort_symbols(s).len() == s.len(),
        sort_symbols(s).to_multiset() == s.to_multiset(),
    decreases s.len(),
{
    broadcast use vstd::seq_lib::group_to_multiset_ensures;

    if s.len() > 0 {
        lemma_sort_symbols(s.drop_last());
        lemma_insert_sorted_sorted(sort_symbols(s.drop_last()), s.last());
        assert(s =~= s.drop_last().push(s.last()));
    }
}

/// Sorting keeps every symbol (as many times as it occurs) and puts them in
/// position order: by start byte, and of two starting together, the longer first.
pub proof fn law_sorted_symbols_are_a_permutation_in_order(s: Seq<SymbolView>)
    ensures
        sorted_by_position(sort_symbols(s)),
        sort_symbols(s).to_multiset() == s.to_multiset(),
{
    lemma_sort_symbols(s);
}

/// Stable insertion sort of symbols by (start byte ascending, end byte descending).
fn sort_by_position(v: Vec<ExtractedSymbol>) -> (r: Vec<ExtractedSymbol>)
    ensures
        symbols_view(r@) == sort_symbols(symbols_view(v@)),
{
    let mut input = v;
    let mut out: Vec<ExtractedSymbol> = Vec::new();
    let ghost all = symbols_view(input@);
    let ghost mut done: int = 0;
    while input.len() > 0
        invariant
            0 <= done <= all.len(),
            symbols_view(input@) == all.skip(done),
            symbols_view(out@) == sort_symbols(all.take(done)),
        decreases input.len(),
    {
        let ghost old_len = input@.len();
        let ghost old_input = input@;
        let x = input.remove(0);
        let ghost xv = x@;
        assert(input@ == old_input.remove(0));
        assert(symbols_view(old_input) == all.skip(done));
        assert forall|k: int| 0 <= k < input@.len() implies input@[k] == old_input[k + 1] by {}
        assert forall|k: int| 0 <= k < old_input.len() implies #[trigger] all.skip(done)[k] == old_input[k]@ by {
            assert(symbols_view(old_input)[k] == old_input[k]@);
        }
        proof {
            assert(all.skip(done).len() == old_len);
            assert(done < all.len());
            assert(all.skip(done)[0] == xv);
            assert forall|k: int| 0 <= k < input@.len() implies #[trigger] symbols_view(input@)[k]
                == all.skip(done + 1)[k] by {
                assert(symbols_view(input@)[k] == input@[k]@);
                assert(all.skip(done)[k + 1] == all.skip(done + 1)[k]);
            }
            assert(symbols_view(input@) =~= all.skip(done + 1));
            assert(all.take(done + 1).drop_last() =~= all.take(done));
            assert(all.take(done + 1).last() == xv);
        }
        let mut p: usize = 0;
        while p < out.len() && !(x.start_byte < out[p].start_byte || (x.start_byte
            == out[p].start_byte && x.end_byte > out[p].end_byte))
            invariant
                p <= out.len(),
                forall|j: int| 0 <= j < p ==> !sorts_before(xv, #[trigger] symbols_view(out@)[j]),
                xv == x@,
            decreases out.len() - p,
        {
            p = p + 1;
        }
        proof {
            lemma_insert_at(symbols_view(out@), xv, p as int);
        }
        let ghost before = out@;
        out.insert(p, x);
        proof {
            assert(symbols_view(out@) =~= symbols_view(before).insert(p as int, xv));
            done = done + 1;
        }
    }
    proof {
        assert(all.take(done) =~= all);
    }
    out
}

// ---------------------------------------------------------------------------
// Nesting
// ---------------------------------------------------------------------------

/// The byte spans (start, end) of the symbols.
pub open spec fn spans_of(s: Seq<SymbolView>) -> Seq<(usize, usize)> {
    s.map_values(|x: SymbolView| (x.start_byte, x.end_byte))
}

/// A stack of open (index, end byte) entries with those that end at or
/// before `start` popped off its top.
pub open spec fn pop_ended(stack: Seq<(usize, usize)>, start: usize) -> Seq<(usize, usize)>
    decreases stack.len(),
{
    if stack.len() > 0 && stack.last().1 <= start {
        pop_ended(stack.drop_last(), start)
    } else {
        stack
    }
}

/// The stack of open spans before span `i` is visited: each visited span
/// pops the ended spans and is then pushed.
pub open spec fn open_before(sp: Seq<(usize, usize)>, i: int) -> Seq<(usize, usize)>
    decreases i,
{
    if i <= 0 {
        Seq::empty()
    } else {
        pop_ended(open_before(sp, i - 1), sp[i - 1].0).push(((i - 1) as usize, sp[i - 1].1))
    }
}

/// The parent of span `i`: the top of the stack once the spans that ended
/// before it starts are popped.
pub open spec fn parent_by_stack(sp: Seq<(usize, usize)>, i: int) -> Option<usize> {
    let st = pop_ended(open_before(sp, i), sp[i].0);
    if st.len() > 0 {
        Some(st.last().0)
    } else {
        None
    }
}

/// The symbols with their parent indices filled in.
pub open spec fn nest_symbols(s: Seq<SymbolView>) -> Seq<SymbolView> {
    Seq::new(
        s.len(),
        |i: int|
            SymbolView {
                name: s[i].name,
                kind: s[i].kind,
                line: s[i].line,
                col: s[i].col,
                end_line: s[i].end_line,
                end_col: s[i].end_col,
                start_byte: s[i].start_byte,
                end_byte: s[i].end_byte,
                parent_index: parent_by_stack(spans_of(s), i),
                signature: s[i].signature,
                return_type: s[i].return_type,
                params: s[i].params,
            },
    )
}

/// Determine parent indices with a stack of open (index, end byte) entries.
fn nest_parents(v: Vec<ExtractedSymbol>) -> (r: Vec<ExtractedSymbol>)
    ensures
        symbols_view(r@) == nest_symbols(symbols_view(v@)),
{
    let ghost all = symbols_view(v@);
    let ghost sp = spans_of(all);
    let mut input = v;
    let mut out: Vec<ExtractedSymbol> = Vec::new();
    let mut stack: Vec<(usize, usize)> = Vec::new();
    let n = input.len();
    let mut i: usize = 0;
    while input.len() > 0
        invariant
            i <= all.len(),
            all.len() == n,
            sp == spans_of(all),
            symbols_view(input@) == all.skip(i as int),
            symbols_view(out@) == nest_symbols(all).take(i as int),
            stack@ == open_before(sp, i as int),
        decreases input.len(),
    {
        let ghost old_input = input@;
        let mut sym = input.remove(0);
        proof {
            assert(all.skip(i as int).len() == old_input.len());
            assert(symbols_view(old_input)[0] == old_input[0]@);
            assert(sym@ == all[i as int]);
            assert forall|k: int| 0 <= k < input@.len() implies #[trigger] symbols_view(input@)[k]
                == all.skip(i + 1)[k] by {
                assert(input@[k] == old_input[k + 1]);
                assert(symbols_view(old_input)[k + 1] == old_input[k + 1]@);
            }
            assert(symbols_view(input@) =~= all.skip(i + 1));
        }
        let ghost st0 = stack@;
        while stack.len() > 0 && stack[stack.len() - 1].1 <= sym.start_byte
            invariant
                pop_ended(stack@, sym.start_byte) == pop_ended(st0, sym.start_byte),
            decreases stack.len(),
        {
            let ghost before = stack@;
            stack.pop();
            assert(stack@ == before.drop_last());
        }
        assert(stack@ == pop_ended(st0, sym.start_byte));
        assert(sp[i as int] == (sym.start_byte, sym.end_byte));
        let parent = if stack.len() > 0 {
            Some(stack[stack.len() - 1].0)
        } else {
            None
        };
        sym.parent_index = parent;
        stack.push((i, sym.end_byte));
        let ghost before_out = out@;
        out.push(sym);
        proof {
            assert(symbols_view(out@) =~= symbols_view(before_out).push(out@.last()@));
            assert(nest_symbols(all).take(i + 1) =~= nest_symbols(all).take(i as int).push(
                nest_symbols(all)[i as int],
            ));
        }
        i = i + 1;
    }
    proof {
        assert(all.skip(i as int).len() == 0);
        assert(nest_symbols(all).take(i as int) =~= nest_symbols(all));
    }
    out
}

/// Whether symbol `b` starts inside the byte range of symbol `a`.
pub open spec fn starts_inside(b: SymbolView, a: SymbolView) -> bool {
    a.start_byte <= b.start_byte && b.start_byte < a.end_byte
}

/// Any two symbols are either nested (the later one ends no later than the
/// earlier) or disjoint (the earlier ends before the later starts), as the
/// nodes of one syntax tree are.
pub open spec fn nested_or_disjoint(s: Seq<SymbolView>) -> bool {
    forall|a: int, b: int|
        0 <= a < b < s.len() ==> #[trigger] s[b].end_byte <= #[trigger] s[a].end_byte
            || s[a].end_byte <= s[b].start_byte
}

/// Span `j` is still open when span `i` is visited: every span visited in
/// between started before `j` ended.
spec fn alive(sp: Seq<(usize, usize)>, j: int, i: int) -> bool {
    forall|k: int| j < k < i ==> #[trigger] sp[k].0 < sp[j].1
}

/// The stack holds, bottom to top, exactly the spans still open, and each
/// ends no later than the one below it.
spec fn stack_ok(sp: Seq<(usize, usize)>, st: Seq<(usize, usize)>, i: int) -> bool {
    &&& forall|t: int|
        0 <= t < st.len() ==> (#[trigger] st[t].0 as int) < i && st[t].1 == sp[st[t].0 as int].1
            && alive(sp, st[t].0 as int, i)
    &&& forall|t: int, u: int|
        0 <= t < u < st.len() ==> #[trigger] st[t].0 < #[trigger] st[u].0 && st[u].1 <= st[t].1
    &&& forall|j: int|
        0 <= j < i && alive(sp, j, i) ==> exists|t: int| 0 <= t < st.len() && #[trigger] st[t].0 == j
}

proof fn lemma_pop_ended(st: Seq<(usize, usize)>, x: usize)
    ensures
        pop_ended(st, x).len() <= st.len(),
        pop_ended(st, x) == st.take(pop_ended(st, x).len() as int),
        forall|t: int| pop_ended(st, x).len() <= t < st.len() ==> #[trigger] st[t].1 <= x,
        pop_ended(st, x).len() > 0 ==> pop_ended(st, x).last().1 > x,
    decreases st.len(),
{
    if st.len() > 0 && st.last().1 <= x {
        lemma_pop_ended(st.drop_last(), x);
        let p = pop_ended(st.drop_last(), x);
        assert(p == st.drop_last().take(p.len() as int));
        assert(st.drop_last().take(p.len() as int) =~= st.take(p.len() as int));
        assert forall|t: int| p.len() <= t < st.len() implies #[trigger] st[t].1 <= x by {
            if t < st.len() - 1 {
                assert(st[t] == st.drop_last()[t]);
            }
        }
    } else {
        assert(st.take(st.len() as int) =~= st);
    }
}

proof fn lemma_open_before(sp: Seq<(usize, usize)>, i: int)
    requires
        0 <= i <= sp.len(),
        sp.len() <= usize::MAX,
        forall|a: int, b: int|
            0 <= a < b < sp.len() ==> #[trigger] sp[b].1 <= #[trigger] sp[a].1 || sp[a].1 <= sp[b].0,
    ensures
        stack_ok(sp, open_before(sp, i), i),
    decreases i,
{
    if i > 0 {
        let m = i - 1;
        lemma_open_before(sp, m);
        let st = open_before(sp, m);
        let x = sp[m].0;
        let p = pop_ended(st, x);
        lemma_pop_ended(st, x);
        let st2 = p.push((m as usize, sp[m].1));
        assert(open_before(sp, i) == st2);
        assert forall|t: int| 0 <= t < p.len() implies #[trigger] p[t] == st[t] by {}
        assert forall|t: int| 0 <= t < p.len() implies sp[m].0 < #[trigger] st[t].1 by {
            if t < p.len() - 1 {
                assert(st[t].0 < st[p.len() - 1].0);
            }
        }
        assert forall|t: int| 0 <= t < st2.len() implies (#[trigger] st2[t].0 as int) < i
            && st2[t].1 == sp[st2[t].0 as int].1 && alive(sp, st2[t].0 as int, i) by {
            if t < p.len() {
                assert(st2[t] == st[t]);
                let j = st[t].0 as int;
                assert(alive(sp, j, m));
                assert forall|k: int| j < k < i implies #[trigger] sp[k].0 < sp[j].1 by {
                    if k < m {
                        assert(sp[k].0 < sp[j].1);
                    }
                }
            }
        }
        assert forall|t: int, u: int| 0 <= t < u < st2.len() implies #[trigger] st2[t].0
            < #[trigger] st2[u].0 && st2[u].1 <= st2[t].1 by {
            assert(st2[t] == st[t]);
            if u < p.len() {
                assert(st2[u] == st[u]);
                assert(st[t].0 < st[u].0 && st[u].1 <= st[t].1);
            } else {
                let j = st[t].0 as int;
                assert(j < m);
                assert(sp[m].1 <= sp[j].1 || sp[j].1 <= sp[m].0);
            }
        }
        assert forall|j: int| 0 <= j < i && alive(sp, j, i) implies exists|t: int|
            0 <= t < st2.len() && #[trigger] st2[t].0 == j by {
            if j == m {
                assert(st2[p.len() as int].0 == j);
            } else {
                assert(alive(sp, j, m));
                assert(sp[m].0 < sp[j].1);
                let t = choose|t: int| 0 <= t < st.len() && #[trigger] st[t].0 == j;
                if t >= p.len() {
                    assert(st[t].1 <= x);
                }
                assert(st2[t] == st[t]);
            }
        }
    }
}

/// Each symbol's parent is the innermost symbol that it starts inside: the
/// last one before it in order that does so, and none where no earlier one
/// does. This holds of symbols in position order whose spans are nested or
/// disjoint, as the definitions of one syntax tree are.
pub proof fn law_parent_is_innermost_enclosing(s: Seq<SymbolView>, i: int)
    requires
        sorted_by_position(s),
        nested_or_disjoint(s),
        0 <= i < s.len(),
        s.len() <= usize::MAX,
    ensures
        match nest_symbols(s)[i].parent_index {
            Some(j) => j < i && starts_inside(s[i], s[j as int]) && forall|k: int|
                j < k < i ==> !starts_inside(s[i], #[trigger] s[k]),
            None => forall|k: int| 0 <= k < i ==> !starts_inside(s[i], #[trigger] s[k]),
        },
{
    let sp = spans_of(s);
    assert forall|a: int| 0 <= a < s.len() implies #[trigger] sp[a] == (
        s[a].start_byte,
        s[a].end_byte,
    ) by {}
    assert forall|a: int, b: int| 0 <= a < b < sp.len() implies #[trigger] sp[b].1
        <= #[trigger] sp[a].1 || sp[a].1 <= sp[b].0 by {
        assert(s[b].end_byte <= s[a].end_byte || s[a].end_byte <= s[b].start_byte);
    }
    lemma_open_before(sp, i);
    let st = open_before(sp, i);
    let x = sp[i].0;
    let p = pop_ended(st, x);
    lemma_pop_ended(st, x);
    assert forall|k: int| 0 <= k < i && starts_inside(s[i], #[trigger] s[k]) implies alive(
        sp,
        k,
        i,
    ) by {
        assert forall|m: int| k < m < i implies #[trigger] sp[m].0 < sp[k].1 by {
            assert(!sorts_before(s[i], s[m]));
        }
    }
    if p.len() > 0 {
        let last = p.len() - 1;
        assert(p[last] == st[last]);
        let j = st[last].0 as int;
        assert(!sorts_before(s[i], s[j]));
        assert forall|k: int| j < k < i implies !starts_inside(s[i], #[trigger] s[k]) by {
            if starts_inside(s[i], s[k]) {
                assert(alive(sp, k, i));
                let t = choose|t: int| 0 <= t < st.len() && #[trigger] st[t].0 == k;
                if t < last {
                    assert(st[t].0 < st[last].0);
                }
                assert(st[t].1 <= x);
            }
        }
    } else {
        assert forall|k: int| 0 <= k < i implies !starts_inside(s[i], #[trigger] s[k]) by {
            if starts_inside(s[i], s[k]) {
                assert(alive(sp, k, i));
                let t = choose|t: int| 0 <= t < st.len() && #[trigger] st[t].0 == k;
                assert(st[t].1 <= x);
            }
        }
    }
}

// ---------------------------------------------------------------------------
// Containment and references
// ---------------------------------------------------------------------------

/// Whether a symbol's byte range contains an offset.
pub open spec fn contains_offset(s: SymbolView, off: usize) -> bool {
    s.start_byte <= off && off < s.end_byte
}

/// The last of the first `n` symbols whose range contains `off`.
pub open spec fn last_containing(s: Seq<SymbolView>, off: usize, n: int) -> Option<int>
    decreases n,
{
    if n <= 0 {
        None
    } else if contains_offset(s[n - 1], off) {
        Some(n - 1)
    } else {
        last_containing(s, off, n - 1)
    }
}

/// The innermost symbol (latest in position order) whose byte range
/// contains `byte_offset`.
pub fn find_containing_symbol(symbols: &Vec<ExtractedSymbol>, byte_offset: usize) -> (r: Option<
    usize,
>)
    ensures
        match r {
            Some(i) => last_containing(symbols_view(symbols@), byte_offset, symbols@.len() as int)
                == Some(i as int),
            None => last_containing(
                symbols_view(symbols@),
                byte_offset,
                symbols@.len() as int,
            ) is None,
        },
{
    let ghost sv = symbols_view(symbols@);
    let mut best: Option<usize> = None;
    let mut i: usize = 0;
    while i < symbols.len()
        invariant
            i <= symbols.len(),
            sv == symbols_view(symbols@),
            match best {
                Some(b) => last_containing(sv, byte_offset, i as int) == Some(b as int),
                None => last_containing(sv, byte_offset, i as int) is None,
            },
        decreases symbols.len() - i,
    {
        assert(sv[i as int] == symbols@[i as int]@);
        if symbols[i].start_byte <= byte_offset && byte_offset < symbols[i].end_byte {
            best = Some(i);
        }
        i = i + 1;
    }
    best
}

/// The optional index as a machine integer.
pub open spec fn index_opt(o: Option<int>) -> Option<usize> {
    match o {
        Some(i) => Some(i as usize),
        None => None,
    }
}

/// The reference that a match yields: the text of its last `ref_name`
/// capture, at the one-based position of its last `ref` capture, inside the
/// innermost symbol containing that node's start.
pub open spec fn spec_ref_from_match(
    src: Seq<char>,
    m: Seq<QueryCapture>,
    ref_name_idx: u32,
    ref_idx: u32,
    syms: Seq<SymbolView>,
) -> Option<RefView> {
    match (last_capture(m, ref_name_idx), last_capture(m, ref_idx)) {
        (Some(ni), Some(ri)) => {
            let node = m[ri].node;
            match node_text(src, m[ni].node) {
                Some(name) => if fits_one_based(node.start_row) && fits_one_based(node.start_col) {
                    Some(
                        RefView {
                            ref_name: name,
                            kind: "call"@,
                            line: (node.start_row + 1) as usize,
                            col: (node.start_col + 1) as usize,
                            containing_symbol_index: index_opt(
                                last_containing(syms, node.start_byte, syms.len() as int),
                            ),
                        },
                    )
                } else {
                    None
                },
                None => None,
            }
        },
        _ => None,
    }
}

/// The reference a match yields, if it has a name and a reference node.
pub fn ref_from_match(
    m: &Vec<QueryCapture>,
    ref_name_idx: u32,
    ref_idx: u32,
    source: &str,
    symbols: &Vec<ExtractedSymbol>,
) -> (r: Option<ExtractedRef>)
    ensures
        match r {
            Some(x) => spec_ref_from_match(
                source@,
                m@,
                ref_name_idx,
                ref_idx,
                symbols_view(symbols@),
            ) == Some(x@),
            None => spec_ref_from_match(
                source@,
                m@,
                ref_name_idx,
                ref_idx,
                symbols_view(symbols@),
            ) is None,
        },
{
    let ni = find_last_capture(m, ref_name_idx);
    let ri = find_last_capture(m, ref_idx);
    match (ni, ri) {
        (Some(ni), Some(ri)) => {
            let node = &m[ri].node;
            let name_node = &m[ni].node;
            match text_of(source, name_node.start_byte, name_node.end_byte) {
                Some(name) => {
                    if node.start_row < usize::MAX && node.start_col < usize::MAX {
                        let containing = find_containing_symbol(symbols, node.start_byte);
                        Some(
                            ExtractedRef {
                                ref_name: name,
                                kind: "call".to_owned(),
                                line: node.start_row + 1,
                                col: node.start_col + 1,
                                containing_symbol_index: containing,
                            },
                        )
                    } else {
                        None
                    }
                },
                None => None,
            }
        },
        _ => None,
    }
}

/// The references that a sequence of matches yields, in match order.
pub open spec fn collected_refs(
    src: Seq<char>,
    ms: Seq<Vec<QueryCapture>>,
    ref_name_idx: u32,
    ref_idx: u32,
    syms: Seq<SymbolView>,
) -> Seq<RefView>
    decreases ms.len(),
{
    if ms.len() == 0 {
        Seq::empty()
    } else {
        let prev = collected_refs(src, ms.drop_last(), ref_name_idx, ref_idx, syms);
        match spec_ref_from_match(src, ms.last()@, ref_name_idx, ref_idx, syms) {
            Some(r) => prev.push(r),
            None => prev,
        }
    }
}

/// The references found by a reference query's matches, each placed in the
/// innermost symbol that contains it.
pub fn refs_from_matches(
    matches: &Vec<Vec<QueryCapture>>,
    ref_name_idx: u32,
    ref_idx: u32,
    source: &str,
    symbols: &Vec<ExtractedSymbol>,
) -> (r: Vec<ExtractedRef>)
    ensures
        refs_view(r@) == collected_refs(
            source@,
            matches@,
            ref_name_idx,
            ref_idx,
            symbols_view(symbols@),
        ),
{
    let mut out: Vec<ExtractedRef> = Vec::new();
    let mut i: usize = 0;
    while i < matches.len()
        invariant
            i <= matches.len(),
            refs_view(out@) == collected_refs(
                source@,
                matches@.take(i as int),
                ref_name_idx,
                ref_idx,
                symbols_view(symbols@),
            ),
        decreases matches.len() - i,
    {
        assert(matches@.take(i + 1).drop_last() =~= matches@.take(i as int));
        let r = ref_from_match(&matches[i], ref_name_idx, ref_idx, source, symbols);
        let ghost before = out@;
        if let Some(x) = r {
            out.push(x);
            assert(refs_view(out@) =~= refs_view(before).push(out@.last()@));
        }
        i = i + 1;
    }
    assert(matches@.take(matches.len() as int) =~= matches@);
    out
}

/// The symbols that definition matches yield: collected in match order,
/// sorted by position, and with parent indices filled in.
pub open spec fn spec_symbols_from_matches(
    src: Seq<char>,
    lang: Seq<char>,
    ms: Seq<Vec<QueryCapture>>,
    name_idx: u32,
    def_idx: u32,
) -> Seq<SymbolView> {
    nest_symbols(sort_symbols(collected_symbols(src, lang, ms, name_idx, def_idx)))
}

/// The symbols found by a definition query's matches, in position order and
/// with each nested symbol's parent index.
pub fn symbols_from_matches(
    matches: &Vec<Vec<QueryCapture>>,
    name_idx: u32,
    def_idx: u32,
    source: &str,
    language: &str,
) -> (r: Vec<ExtractedSymbol>)
    ensures
        symbols_view(r@) == spec_symbols_from_matches(
            source@,
            language@,
            matches@,
            name_idx,
            def_idx,
        ),
{
    let collected = collect_symbols(matches, name_idx, def_idx, source, language);
    let sorted = sort_by_position(collected);
    nest_parents(sorted)
}

/// Entries of a stack are earlier spans, each with its own end.
spec fn stack_entries_ok(sp: Seq<(usize, usize)>, st: Seq<(usize, usize)>, i: int) -> bool {
    forall|t: int|
        0 <= t < st.len() ==> (#[trigger] st[t].0 as int) < i && st[t].1 == sp[st[t].0 as int].1
}

proof fn lemma_open_before_entries(sp: Seq<(usize, usize)>, i: int)
    requires
        0 <= i <= sp.len(),
        sp.len() <= usize::MAX,
    ensures
        stack_entries_ok(sp, open_before(sp, i), i),
    decreases i,
{
    if i > 0 {
        lemma_open_before_entries(sp, i - 1);
        let st = open_before(sp, i - 1);
        lemma_pop_ended(st, sp[i - 1].0);
        let p = pop_ended(st, sp[i - 1].0);
        assert forall|t: int| 0 <= t < p.len() implies #[trigger] p[t] == st[t] by {}
    }
}

/// In position order, every parent index points to an earlier symbol that
/// the symbol starts inside, and nesting keeps the order.
pub proof fn law_parent_precedes_and_encloses(s: Seq<SymbolView>)
    requires
        sorted_by_position(s),
        s.len() <= usize::MAX,
    ensures
        nest_symbols(s).len() == s.len(),
        sorted_by_position(nest_symbols(s)),
        forall|i: int|
            0 <= i < s.len() ==> match (#[trigger] nest_symbols(s)[i]).parent_index {
                Some(j) => j < i && starts_inside(s[i], s[j as int]),
                None => true,
            },
{
    let sp = spans_of(s);
    let n = nest_symbols(s);
    assert forall|i: int| 0 <= i < s.len() implies match (#[trigger] n[i]).parent_index {
        Some(j) => j < i && starts_inside(s[i], s[j as int]),
        None => true,
    } by {
        lemma_open_before_entries(sp, i);
        let st = open_before(sp, i);
        lemma_pop_ended(st, sp[i].0);
        let p = pop_ended(st, sp[i].0);
        if p.len() > 0 {
            let last = p.len() - 1;
            assert(p[last] == st[last]);
            let j = st[last].0 as int;
            assert(sp[j] == (s[j].start_byte, s[j].end_byte));
            assert(sp[i] == (s[i].start_byte, s[i].end_byte));
            assert(!sorts_before(s[i], s[j]));
        }
    }
    assert forall|a: int, b: int| 0 <= a < b < n.len() implies !sorts_before(
        #[trigger] n[b],
        #[trigger] n[a],
    ) by {
        assert(!sorts_before(s[b], s[a]));
    }
}

/// The symbol found for an offset contains it, and no later symbol (in
/// position order, so none nested inside it) does; where none is found, no
/// symbol contains the offset.
pub proof fn law_containing_symbol_is_innermost(s: Seq<SymbolView>, off: usize, n: int)
    requires
        0 <= n <= s.len(),
    ensures
        match last_containing(s, off, n) {
            Some(i) => 0 <= i < n && contains_offset(s[i], off) && forall|j: int|
                i < j < n ==> !contains_offset(#[trigger] s[j], off),
            None => forall|j: int| 0 <= j < n ==> !contains_offset(#[trigger] s[j], off),
        },
    decreases n,
{
    if n > 0 && !contains_offset(s[n - 1], off) {
        law_containing_symbol_is_innermost(s, off, n - 1);
    }
}

} // verus!
