//! Programming language of a file, from its path.
use vstd::prelude::*;
use crate::text::{ascii_lower_seq, chars_of, contains_char, eq_str, has_char, slice_chars,
    to_ascii_lower_chars,
};

verus! {

/// The text after the last `.` of a path (the whole path when it has none).
pub open spec fn after_last_dot(path: Seq<char>) -> Seq<char>
    decreases path.len(),
{
    if path.len() == 0 {
        path
    } else if path.last() == '.' {
        Seq::empty()
    } else {
        after_last_dot(path.drop_last()).push(path.last())
    }
}

/// The extension of a path: the text after its last `.`; a path without a
/// `.` has no extension (the empty text).
pub open spec fn extension(path: Seq<char>) -> Seq<char> {
    if has_char(path, '.') {
        after_last_dot(path)
    } else {
        Seq::empty()
    }
}

/// The language named by a lowercase extension.
pub open spec fn language_of_extension(e: Seq<char>) -> Option<Seq<char>> {
    if e == "rs"@ {
        Some("rust"@)
    } else if e == "py"@ {
        Some("python"@)
    } else if e == "js"@ {
        Some("javascript"@)
    } else if e == "ts"@ {
        Some("typescript"@)
    } else if e == "tsx"@ {
        Some("tsx"@)
    } else if e == "jsx"@ {
        Some("jsx"@)
    } else if e == "java"@ {
        Some("java"@)
    } else if e == "c"@ || e == "h"@ {
        Some("c"@)
    } else if e == "cpp"@ || e == "cc"@ || e == "cxx"@ || e == "hpp"@ || e == "hxx"@ || e == "hh"@ {
        Some("cpp"@)
    } else if e == "go"@ {
        Some("go"@)
    } else if e == "rb"@ {
        Some("ruby"@)
    } else if e == "php"@ {
        Some("php"@)
    } else if e == "swift"@ {
        Some("swift"@)
    } else if e == "kt"@ || e == "kts"@ {
        Some("kotlin"@)
    } else if e == "scala"@ {
        Some("scala"@)
    } else if e == "cs"@ {
        Some("csharp"@)
    } else if e == "sh"@ || e == "bash"@ {
        Some("shell"@)
    } else if e == "sql"@ {
        Some("sql"@)
    } else if e == "html"@ || e == "htm"@ {
        Some("html"@)
    } else if e == "css"@ {
        Some("css"@)
    } else if e == "json"@ {
        Some("json"@)
    } else if e == "yaml"@ || e == "yml"@ {
        Some("yaml"@)
    } else if e == "toml"@ {
        Some("toml"@)
    } else if e == "xml"@ {
        Some("xml"@)
    } else if e == "md"@ || e == "markdown"@ {
        Some("markdown"@)
    } else if e == "r"@ {
        Some("r"@)
    } else if e == "lua"@ {
        Some("lua"@)
    } else if e == "zig"@ {
        Some("zig"@)
    } else if e == "ex"@ || e == "exs"@ {
        Some("elixir"@)
    } else if e == "erl"@ || e == "hrl"@ {
        Some("erlang"@)
    } else if e == "hs"@ {
        Some("haskell"@)
    } else if e == "ml"@ || e == "mli"@ {
        Some("ocaml"@)
    } else if e == "pl"@ || e == "pm"@ {
        Some("perl"@)
    } else if e == "proto"@ {
        Some("protobuf"@)
    } else if e == "dart"@ {
        Some("dart"@)
    } else {
        None
    }
}

/// The language of a path: its extension, compared without regard to ASCII case.
pub open spec fn spec_detect_language(path: Seq<char>) -> Option<Seq<char>> {
    language_of_extension(ascii_lower_seq(extension(path)))
}

proof fn lemma_extension_is_suffix(path: Seq<char>)
    ensures
        after_last_dot(path).len() <= path.len(),
        after_last_dot(path) == path.skip(path.len() - after_last_dot(path).len()),
        forall|j: int|
            path.len() - after_last_dot(path).len() <= j < path.len() ==> path[j] != '.',
        after_last_dot(path).len() < path.len() ==> path[path.len() - after_last_dot(path).len() - 1]
            == '.',
    decreases path.len(),
{
    if path.len() > 0 && path.last() != '.' {
        lemma_extension_is_suffix(path.drop_last());
        let e = after_last_dot(path.drop_last());
        assert(path.drop_last().skip(path.drop_last().len() - e.len()).push(path.last())
            =~= path.skip(path.len() - e.len() - 1));
        assert forall|j: int| path.len() - after_last_dot(path).len() <= j < path.len() implies path[j]
            != '.' by {
            if j < path.len() - 1 {
                assert(path[j] == path.drop_last()[j]);
            }
        }
        if e.len() < path.drop_last().len() {
            assert(path[path.len() - after_last_dot(path).len() - 1] == path.drop_last()[
                path.drop_last().len() - e.len() - 1
            ]);
        }
    } else if path.len() > 0 {
        assert(path.skip(path.len() as int) =~= Seq::<char>::empty());
    }
}

/// Exec search for the start of the extension: one past the last `.`, or the
/// end of the path where it has no `.`.
fn extension_start(v: &[char]) -> (k: usize)
    ensures
        k <= v.len(),
        v@.skip(k as int) == extension(v@),
{
    if !contains_char(v, '.') {
        assert(v@.skip(v.len() as int) =~= Seq::<char>::empty());
        return v.len();
    }
    proof {
        lemma_extension_is_suffix(v@);
    }
    let mut k: usize = v.len();
    while k > 0 && v[k - 1] != '.'
        invariant
            k <= v.len(),
            forall|j: int| k <= j < v.len() ==> v@[j] != '.',
            after_last_dot(v@).len() <= v@.len(),
            after_last_dot(v@) == v@.skip(v@.len() - after_last_dot(v@).len()),
            forall|j: int|
                v@.len() - after_last_dot(v@).len() <= j < v@.len() ==> v@[j] != '.',
            after_last_dot(v@).len() < v@.len() ==> v@[v@.len() - after_last_dot(v@).len() - 1] == '.',
            v.len() - k <= after_last_dot(v@).len(),
        decreases k,
    {
        k = k - 1;
    }
    assert(k == v.len() - after_last_dot(v@).len());
    k
}

fn lang(name: &'static str) -> (r: Option<&'static str>)
    ensures
        r matches Some(x) && x@ == name@,
{
    Some(name)
}

/// Detect programming language from file path extension.
pub fn detect_language(path: &str) -> (r: Option<&'static str>)
    ensures
        match r {
            Some(name) => spec_detect_language(path@) == Some(name@),
            None => spec_detect_language(path@) is None,
        },
{
    let v = chars_of(path);
    let k = extension_start(&v);
    let raw = slice_chars(&v, k, v.len());
    assert(raw@ =~= extension(path@));
    let e = to_ascii_lower_chars(&raw);
    let e = e.as_slice();
    if eq_str(e, "rs") {
        lang("rust")
    } else if eq_str(e, "py") {
        lang("python")
    } else if eq_str(e, "js") {
        lang("javascript")
    } else if eq_str(e, "ts") {
        lang("typescript")
    } else if eq_str(e, "tsx") {
        lang("tsx")
    } else if eq_str(e, "jsx") {
        lang("jsx")
    } else if eq_str(e, "java") {
        lang("java")
    } else if eq_str(e, "c") || eq_str(e, "h") {
        lang("c")
    } else if eq_str(e, "cpp") || eq_str(e, "cc") || eq_str(e, "cxx") || eq_str(e, "hpp")
        || eq_str(e, "hxx") || eq_str(e, "hh") {
        lang("cpp")
    } else if eq_str(e, "go") {
        lang("go")
    } else if eq_str(e, "rb") {
        lang("ruby")
    } else if eq_str(e, "php") {
        lang("php")
    } else if eq_str(e, "swift") {
        lang("swift")
    } else if eq_str(e, "kt") || eq_str(e, "kts") {
        lang("kotlin")
    } else if eq_str(e, "scala") {
        lang("scala")
    } else if eq_str(e, "cs") {
        lang("csharp")
    } else if eq_str(e, "sh") || eq_str(e, "bash") {
        lang("shell")
    } else if eq_str(e, "sql") {
        lang("sql")
    } else if eq_str(e, "html") || eq_str(e, "htm") {
        lang("html")
    } else if eq_str(e, "css") {
        lang("css")
    } else if eq_str(e, "json") {
        lang("json")
    } else if eq_str(e, "yaml") || eq_str(e, "yml") {
        lang("yaml")
    } else if eq_str(e, "toml") {
        lang("toml")
    } else if eq_str(e, "xml") {
        lang("xml")
    } else if eq_str(e, "md") || eq_str(e, "markdown") {
        lang("markdown")
    } else if eq_str(e, "r") {
        lang("r")
    } else if eq_str(e, "lua") {
        lang("lua")
    } else if eq_str(e, "zig") {
        lang("zig")
    } else if eq_str(e, "ex") || eq_str(e, "exs") {
        lang("elixir")
    } else if eq_str(e, "erl") || eq_str(e, "hrl") {
        lang("erlang")
    } else if eq_str(e, "hs") {
        lang("haskell")
    } else if eq_str(e, "ml") || eq_str(e, "mli") {
        lang("ocaml")
    } else if eq_str(e, "pl") || eq_str(e, "pm") {
        lang("perl")
    } else if eq_str(e, "proto") {
        lang("protobuf")
    } else if eq_str(e, "dart") {
        lang("dart")
    } else {
        None
    }
}

/// The extensions of files whose language has a symbol configuration.
pub open spec fn symbol_extension(e: Seq<char>) -> bool {
    e == "rs"@ || e == "py"@ || e == "js"@ || e == "ts"@ || e == "tsx"@ || e == "go"@ || e == "c"@
        || e == "cpp"@
}

proof fn lemma_extension_literals()
    ensures
        "rs"@ == seq!['r', 's'],
        "py"@ == seq!['p', 'y'],
        "js"@ == seq!['j', 's'],
        "ts"@ == seq!['t', 's'],
        "tsx"@ == seq!['t', 's', 'x'],
        "jsx"@ == seq!['j', 's', 'x'],
        "java"@ == seq!['j', 'a', 'v', 'a'],
        "c"@ == seq!['c'],
        "h"@ == seq!['h'],
        "cpp"@ == seq!['c', 'p', 'p'],
        "cc"@ == seq!['c', 'c'],
        "cxx"@ == seq!['c', 'x', 'x'],
        "hpp"@ == seq!['h', 'p', 'p'],
        "hxx"@ == seq!['h', 'x', 'x'],
        "hh"@ == seq!['h', 'h'],
        "go"@ == seq!['g', 'o'],
        "rust"@ == seq!['r', 'u', 's', 't'],
        "python"@ == seq!['p', 'y', 't', 'h', 'o', 'n'],
        "javascript"@ == seq!['j', 'a', 'v', 'a', 's', 'c', 'r', 'i', 'p', 't'],
        "typescript"@ == seq!['t', 'y', 'p', 'e', 's', 'c', 'r', 'i', 'p', 't'],
{
    reveal_strlit("rs");
    reveal_strlit("py");
    reveal_strlit("js");
    reveal_strlit("ts");
    reveal_strlit("tsx");
    reveal_strlit("jsx");
    reveal_strlit("java");
    reveal_strlit("c");
    reveal_strlit("h");
    reveal_strlit("cpp");
    reveal_strlit("cc");
    reveal_strlit("cxx");
    reveal_strlit("hpp");
    reveal_strlit("hxx");
    reveal_strlit("hh");
    reveal_strlit("go");
    reveal_strlit("rust");
    reveal_strlit("python");
    reveal_strlit("javascript");
    reveal_strlit("typescript");
}

proof fn lemma_symbol_extension_language(e: Seq<char>)
    requires
        symbol_extension(e),
    ensures
        e == "rs"@ ==> language_of_extension(e) == Some("rust"@),
        e == "py"@ ==> language_of_extension(e) == Some("python"@),
        e == "js"@ ==> language_of_extension(e) == Some("javascript"@),
        e == "ts"@ ==> language_of_extension(e) == Some("typescript"@),
        e == "tsx"@ ==> language_of_extension(e) == Some("tsx"@),
        e == "go"@ ==> language_of_extension(e) == Some("go"@),
        e == "c"@ ==> language_of_extension(e) == Some("c"@),
        e == "cpp"@ ==> language_of_extension(e) == Some("cpp"@),
{
    lemma_extension_literals();
}

/// Files of every language that has a symbol configuration are detected as
/// a language with a definition query, and files with different such
/// extensions (compared without regard to ASCII case) as different
/// languages: `.ts` is TypeScript, not JavaScript, and so on.
pub proof fn law_symbol_languages_are_told_apart(p1: Seq<char>, p2: Seq<char>)
    requires
        symbol_extension(ascii_lower_seq(extension(p1))),
        symbol_extension(ascii_lower_seq(extension(p2))),
    ensures
        spec_detect_language(p1) matches Some(l) && crate::grammar::spec_def_query(l) is Some,
        ascii_lower_seq(extension(p1)) != ascii_lower_seq(extension(p2)) ==> spec_detect_language(p1)
            != spec_detect_language(p2),
{
    let e1 = ascii_lower_seq(extension(p1));
    let e2 = ascii_lower_seq(extension(p2));
    lemma_symbol_extension_language(e1);
    lemma_symbol_extension_language(e2);
    lemma_extension_literals();
    crate::grammar::lemma_language_names();
}

/// A path whose extension is `ts` (in any ASCII case) is TypeScript, the
/// language whose definition query is the TypeScript one.
pub proof fn law_ts_files_are_typescript(path: Seq<char>)
    requires
        ascii_lower_seq(extension(path)) == "ts"@,
    ensures
        spec_detect_language(path) == Some("typescript"@),
        crate::grammar::spec_def_query("typescript"@) == Some(crate::grammar::TYPESCRIPT_DEF_QUERY@),
{
    lemma_extension_literals();
    lemma_symbol_extension_language(ascii_lower_seq(extension(path)));
    crate::grammar::lemma_language_names();
}

} // verus!
