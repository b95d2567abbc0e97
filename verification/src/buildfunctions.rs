//! The computing half of the build helpers that surround the
//! code-generation pipeline: deriving names and file texts. Reading and
//! writing the files themselves is left to the caller; everything here is
//! a function from strings to strings.

use vstd::prelude::*;
use vstd::string::*;

verus! {

/// Whether the pattern occurs in the text starting at position `i`.
pub open spec fn spec_is_match_at(s: Seq<char>, pat: Seq<char>, i: int) -> bool {
    0 <= i && i + pat.len() <= s.len() && s.subrange(i, i + pat.len()) == pat
}

/// The first position at or after `i` where the pattern occurs.
pub open spec fn spec_match_from(s: Seq<char>, pat: Seq<char>, i: int) -> Option<int>
    recommends
        0 <= i <= s.len(),
    decreases s.len() - i,
{
    if i < 0 || pat.len() == 0 || i + pat.len() > s.len() {
        None
    } else if spec_is_match_at(s, pat, i) {
        Some(i)
    } else {
        spec_match_from(s, pat, i + 1)
    }
}

/// A found occurrence lies inside the text, at or after where the search
/// began, and only a non-empty pattern is ever found.
pub proof fn lemma_match_from_in_range(s: Seq<char>, pat: Seq<char>, i: int)
    requires
        spec_match_from(s, pat, i) is Some,
    ensures
        spec_match_from(s, pat, i) matches Some(k) && i <= k && k + pat.len() <= s.len()
            && pat.len() > 0,
    decreases s.len() - i,
{
    if !(i < 0 || pat.len() == 0 || i + pat.len() > s.len()) && !spec_is_match_at(s, pat, i) {
        lemma_match_from_in_range(s, pat, i + 1);
    }
}

/// The text with every occurrence of the pattern replaced, scanning left
/// to right; what a replacement inserts is never rescanned. A text
/// without the pattern comes back unchanged.
pub open spec fn spec_replace_all(s: Seq<char>, pat: Seq<char>, rep: Seq<char>) -> Seq<char>
    decreases s.len(),
{
    match spec_match_from(s, pat, 0) {
        None => s,
        Some(i) => {
            proof {
                lemma_match_from_in_range(s, pat, 0);
            }
            s.take(i) + rep + spec_replace_all(s.skip(i + pat.len()), pat, rep)
        },
    }
}

/// The position of the first occurrence of a pattern in a text.
pub fn find_first(text: &str, pattern: &str) -> (r: Option<usize>)
    requires
        pattern@.len() > 0,
    ensures
        match r {
            Some(i) => spec_match_from(text@, pattern@, 0) == Some(i as int) && i + pattern@.len()
                <= text@.len(),
            None => spec_match_from(text@, pattern@, 0) is None,
        },
{
    let n = text.unicode_len();
    let m = pattern.unicode_len();
    if m > n {
        proof {
            assert(spec_match_from(text@, pattern@, 0) is None);
        }
        return None;
    }
    let mut i: usize = 0;
    while i <= n - m
        invariant
            i <= n,
            m <= n,
            m == pattern@.len(),
            n == text@.len(),
            m > 0,
            spec_match_from(text@, pattern@, 0) == spec_match_from(text@, pattern@, i as int),
        decreases n - i,
    {
        let mut j: usize = 0;
        let mut matched = true;
        while j < m
            invariant
                j <= m,
                i + m <= n,
                m == pattern@.len(),
                n == text@.len(),
                matched ==> forall|k: int| 0 <= k < j ==> text@[i + k] == pattern@[k],
                !matched ==> !spec_is_match_at(text@, pattern@, i as int),
            decreases m - j,
        {
            let a = text.get_char(i + j);
            let b = pattern.get_char(j);
            if a != b {
                proof {
                    if spec_is_match_at(text@, pattern@, i as int) {
                        assert(text@.subrange(i as int, i + m)[j as int] == pattern@[j as int]);
                    }
                }
                matched = false;
            }
            j = j + 1;
        }
        if matched {
            proof {
                assert(text@.subrange(i as int, i + m) =~= pattern@);
                assert(spec_is_match_at(text@, pattern@, i as int));
            }
            return Some(i);
        }
        proof {
            assert(!spec_is_match_at(text@, pattern@, i as int));
        }
        i = i + 1;
    }
    proof {
        assert(spec_match_from(text@, pattern@, i as int) is None);
    }
    None
}

/// Whether a text lacks a piece of text, as the build step asks before
/// appending one.
pub fn is_file_missing_text(file_data: &str, text: &str) -> (r: bool)
    requires
        text@.len() > 0,
    ensures
        r == (spec_match_from(file_data@, text@, 0) is None),
{
    find_first(file_data, text).is_none()
}

/// Replaces every occurrence of a pattern in a text, scanning left to
/// right; a text without the pattern comes back unchanged.
pub fn replace_all(text: &str, pattern: &str, replacement: &str) -> (r: String)
    requires
        pattern@.len() > 0,
    ensures
        r@ == spec_replace_all(text@, pattern@, replacement@),
{
    let n = text.unicode_len();
    let m = pattern.unicode_len();
    let mut out = String::new();
    let mut p: usize = 0;
    proof {
        assert(text@.skip(0) =~= text@);
        assert(out@ + spec_replace_all(text@, pattern@, replacement@) =~= spec_replace_all(
            text@,
            pattern@,
            replacement@,
        ));
    }
    while p <= n
        invariant
            p <= n,
            n == text@.len(),
            m == pattern@.len(),
            m > 0,
            out@ + spec_replace_all(text@.skip(p as int), pattern@, replacement@)
                == spec_replace_all(text@, pattern@, replacement@),
        decreases n - p,
    {
        let tail = text.substring_char(p, n);
        proof {
            assert(tail@ =~= text@.skip(p as int));
        }
        match find_first(tail, pattern) {
            None => {
                out.append(tail);
                return out;
            },
            Some(i) => {
                proof {
                    lemma_match_from_in_range(tail@, pattern@, 0);
                }
                let ghost rest = tail@.skip(i + m);
                let ghost out0 = out@;
                let kept = tail.substring_char(0, i);
                out.append(kept);
                out.append(replacement);
                proof {
                    assert(kept@ =~= tail@.take(i as int));
                    assert(rest =~= text@.skip(p + i + m));
                    assert(out@ =~= out0 + tail@.take(i as int) + replacement@);
                    assert(out0 + (tail@.take(i as int) + replacement@ + spec_replace_all(
                        rest,
                        pattern@,
                        replacement@,
                    )) =~= out@ + spec_replace_all(rest, pattern@, replacement@));
                }
                p = p + i + m;
            },
        }
    }
    proof {
        assert(text@.skip(p as int) =~= Seq::<char>::empty());
    }
    out
}

/// The position of the last occurrence of a character, if it occurs.
pub open spec fn spec_last_index_of(s: Seq<char>, c: char) -> Option<int>
    decreases s.len(),
{
    if s.len() == 0 {
        None
    } else if s.last() == c {
        Some(s.len() - 1)
    } else {
        spec_last_index_of(s.drop_last(), c)
    }
}

/// The base name of a path written as text: what follows the last path
/// separator, with the part from its last dot on dropped, unless the dot
/// leads the name.
pub open spec fn spec_base_name(s: Seq<char>) -> Seq<char> {
    let name = match spec_last_index_of(s, '/') {
        None => s,
        Some(i) => s.skip(i + 1),
    };
    match spec_last_index_of(name, '.') {
        None => name,
        Some(j) => if j > 0 {
            name.take(j)
        } else {
            name
        },
    }
}

/// A found character lies inside the text.
proof fn lemma_last_index_in_range(s: Seq<char>, c: char)
    requires
        spec_last_index_of(s, c) is Some,
    ensures
        spec_last_index_of(s, c) matches Some(i) && 0 <= i < s.len(),
    decreases s.len(),
{
    if s.len() > 0 && s.last() != c {
        lemma_last_index_in_range(s.drop_last(), c);
    }
}

/// The position of the last occurrence of a character in a text.
fn last_index_of(text: &str, c: char) -> (r: Option<usize>)
    ensures
        match r {
            Some(i) => spec_last_index_of(text@, c) == Some(i as int) && i < text@.len(),
            None => spec_last_index_of(text@, c) is None,
        },
{
    let n = text.unicode_len();
    let mut i: usize = n;
    proof {
        assert(text@.take(n as int) =~= text@);
    }
    while i > 0
        invariant
            i <= n,
            n == text@.len(),
            spec_last_index_of(text@.take(i as int), c) == spec_last_index_of(text@, c),
        decreases i,
    {
        let ghost pre = text@.take(i as int);
        proof {
            assert(pre.last() == text@[i - 1]);
            assert(pre.drop_last() =~= text@.take(i - 1));
        }
        if text.get_char(i - 1) == c {
            proof {
                lemma_last_index_in_range(text@, c);
            }
            return Some(i - 1);
        }
        i = i - 1;
    }
    proof {
        assert(text@.take(0) =~= Seq::<char>::empty());
    }
    None
}

/// The base name of a path written as text, as the generated module name
/// of a schema file.
pub fn base_name(protobuf_path: &str) -> (r: String)
    ensures
        r@ == spec_base_name(protobuf_path@),
{
    let n = protobuf_path.unicode_len();
    let name = match last_index_of(protobuf_path, '/') {
        None => protobuf_path.to_owned(),
        Some(i) => {
            let s = protobuf_path.substring_char(i + 1, n);
            proof {
                assert(protobuf_path@.subrange(i + 1, n as int) =~= protobuf_path@.skip(i + 1));
            }
            s.to_owned()
        },
    };
    match last_index_of(name.as_str(), '.') {
        None => name,
        Some(j) => {
            if j > 0 {
                let s = name.as_str().substring_char(0, j);
                proof {
                    assert(name@.subrange(0, j as int) =~= name@.take(j as int));
                }
                s.to_owned()
            } else {
                name
            }
        },
    }
}

/// Where the table of schema aliases is generated.
pub fn get_schema_urls_rs_path() -> (r: String)
    ensures
        r@ == "src/autogen_protobuf/schema_urls.rs"@,
{
    <String as StringExecFns>::from_str("src/autogen_protobuf/schema_urls.rs")
}

/// Where the code generated from a schema file goes: the schema's base
/// name, as a source file in the generated-code directory.
pub fn get_protobuf_generated_filename(proto_filename: &str) -> (r: String)
    ensures
        r@ == "src/autogen_protobuf/"@ + spec_base_name(proto_filename@) + ".rs"@,
{
    let mut out = <String as StringExecFns>::from_str("src/autogen_protobuf/");
    let base = base_name(proto_filename);
    out.append(base.as_str());
    out.append(".rs");
    out
}

/// The line that makes a schema file's generated code carry the schema
/// it was published under, as a string constant.
pub open spec fn spec_schema_url_line(hash: Seq<char>) -> Seq<char> {
    "pub static SCHEMA_URL: &str = \""@ + hash + "\";"@
}

/// The marker comment that the generated code carries until the schema
/// is published.
pub open spec fn spec_schema_url_marker() -> Seq<char> {
    "//__SCHEMA_URL__"@
}

/// Fills the published schema into generated code: every occurrence of
/// the marker comment is replaced by the constant declaring the schema.
pub fn replace_schema_url_comment_with_hash_constant(file_data: &str, hash: &str) -> (r: String)
    ensures
        r@ == spec_replace_all(
            file_data@,
            spec_schema_url_marker(),
            spec_schema_url_line(hash@),
        ),
{
    let mut line = <String as StringExecFns>::from_str("pub static SCHEMA_URL: &str = \"");
    line.append(hash);
    line.append("\";");
    proof {
        reveal_strlit("//__SCHEMA_URL__");
    }
    replace_all(file_data, "//__SCHEMA_URL__", line.as_str())
}

/// The marker line in the alias table under which new schemas are
/// entered.
pub open spec fn spec_schema_map_marker() -> Seq<char> {
    "// __SCHEMA_MAP_INSERT__"@
}

/// The starting text of the alias table: an empty table holding only the
/// marker under which entries are added.
pub fn create_schema_urls_rs() -> (r: String)
    ensures
        r@ == "pub fn get_all_aliases() -> hashbrown::HashMap<String, &'static str> {\n"@
            + "\tlet mut ret = hashbrown::HashMap::new();\n"@
            + "\t// __SCHEMA_MAP_INSERT__ Do not remove this line. This line is used to add new protocols.\n"@
            + "\tret\n"@ + "}\n"@,
{
    let mut out = <String as StringExecFns>::from_str(
        "pub fn get_all_aliases() -> hashbrown::HashMap<String, &'static str> {\n",
    );
    out.append("\tlet mut ret = hashbrown::HashMap::new();\n");
    out.append(
        "\t// __SCHEMA_MAP_INSERT__ Do not remove this line. This line is used to add new protocols.\n",
    );
    out.append("\tret\n");
    out.append("}\n");
    out
}

/// One alias entry of the table.
pub open spec fn spec_alias_line(base: Seq<char>, schema: Seq<char>) -> Seq<char> {
    "ret.insert(\""@ + base + "\".to_string(), \""@ + schema + "\");\n\t"@
}

/// Enters one schema alias into the alias table text: the new entry goes
/// in at the marker, and the marker stays for the next entry. What a
/// replacement inserts is never rescanned, so the marker inside the
/// replacement survives exactly once per occurrence.
pub fn add_to_schema_urls_rs(file_data: &str, base: &str, schema: &str) -> (r: String)
    ensures
        r@ == spec_replace_all(
            file_data@,
            spec_schema_map_marker(),
            spec_alias_line(base@, schema@) + spec_schema_map_marker(),
        ),
{
    let mut line = <String as StringExecFns>::from_str("ret.insert(\"");
    line.append(base);
    line.append("\".to_string(), \"");
    line.append(schema);
    line.append("\");\n\t");
    line.append("// __SCHEMA_MAP_INSERT__");
    proof {
        reveal_strlit("// __SCHEMA_MAP_INSERT__");
    }
    replace_all(file_data, "// __SCHEMA_MAP_INSERT__", line.as_str())
}

} // verus!
