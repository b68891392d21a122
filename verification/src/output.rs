use vstd::prelude::*;

use crate::text::{lemma_trim_shape, spec_is_whitespace, spec_trim, trim};

verus! {

/// Whether a character may not stand in a file name and is replaced by `_`.
pub open spec fn is_reserved_char(c: char) -> bool {
    c == '/' || c == '\\' || c == ':' || c == '*' || c == '?' || c == '"' || c == '<' || c
        == '>' || c == '|'
}

/// A character with reserved ones replaced by `_`.
pub open spec fn replace_reserved(c: char) -> char {
    if is_reserved_char(c) {
        '_'
    } else {
        c
    }
}

/// The name given to a file whose name would otherwise be empty.
pub open spec fn unnamed() -> Seq<char> {
    "未命名"@
}

/// The file name made from a text: reserved characters become `_`, then
/// surrounding white space, surrounding dots and again surrounding white
/// space are removed; an empty result becomes `unnamed()`.
pub open spec fn spec_sanitize(value: Seq<char>) -> Seq<char> {
    let cleaned = spec_trim(
        spec_trim(spec_trim(value.map_values(|c: char| replace_reserved(c)), false), true),
        false,
    );
    if cleaned.len() == 0 {
        unnamed()
    } else {
        cleaned
    }
}

/// A path with one relative component appended, as `Path::join` appends one
/// on Unix: a separator is put between them unless the base is empty or ends
/// with one.
pub open spec fn spec_join(base: Seq<char>, component: Seq<char>) -> Seq<char> {
    if base.len() == 0 || base.last() == '/' {
        base + component
    } else {
        base + "/"@ + component
    }
}

/// The path of a library's poster: the task's directory under the output
/// directory, and in it the library's name with `.png`.
pub open spec fn spec_output_path(output_dir: Seq<char>, task_id: Seq<char>, library_name: Seq<char>) -> Seq<char> {
    spec_join(
        spec_join(output_dir, spec_sanitize(task_id)),
        spec_sanitize(library_name) + ".png"@,
    )
}

/// Turns a task id or library name into a safe file name.
pub fn sanitize_filename(value: &str) -> (res: String)
    ensures
        res@ == spec_sanitize(value@),
{
    let n = value.unicode_len();
    let mut mapped = String::new();
    let mut i: usize = 0;
    while i < n
        invariant
            n == value@.len(),
            i <= n,
            mapped@ == value@.take(i as int).map_values(|c: char| replace_reserved(c)),
        decreases n - i,
    {
        let c = value.get_char(i);
        if c == '/' || c == '\\' || c == ':' || c == '*' || c == '?' || c == '"' || c == '<' || c
            == '>' || c == '|' {
            mapped.append("_");
        } else {
            mapped.append(value.substring_char(i, i + 1));
        }
        proof {
            reveal_strlit("_");
            assert(value@.take(i + 1) =~= value@.take(i as int).push(c));
            assert(value@.subrange(i as int, i + 1) =~= seq![c]);
        }
        i = i + 1;
        assert(mapped@ =~= value@.take(i as int).map_values(|c: char| replace_reserved(c)));
    }
    proof {
        assert(value@.take(n as int) =~= value@);
    }
    let first = trim(mapped.as_str(), false);
    let second = trim(first.as_str(), true);
    let cleaned = trim(second.as_str(), false);
    if cleaned.unicode_len() == 0 {
        String::from_str("未命名")
    } else {
        cleaned
    }
}

/// Appends one relative path component to a path, as `Path::join` does on Unix.
pub fn join_path(base: &str, component: &str) -> (res: String)
    ensures
        res@ == spec_join(base@, component@),
{
    let n = base.unicode_len();
    let mut out = String::from_str(base);
    if n > 0 && base.get_char(n - 1) != '/' {
        out.append("/");
    }
    out.append(component);
    out
}

/// The path under `output_dir` where a library's poster is saved.
pub fn output_path(output_dir: &str, task_id: &str, library_name: &str) -> (res: String)
    ensures
        res@ == spec_output_path(output_dir@, task_id@, library_name@),
{
    let directory = join_path(output_dir, sanitize_filename(task_id).as_str());
    let mut file_name = sanitize_filename(library_name);
    file_name.append(".png");
    join_path(directory.as_str(), file_name.as_str())
}

/// A sanitized file name is never empty, holds no reserved character, and
/// neither begins nor ends with white space.
pub proof fn lemma_sanitized_name_is_safe(value: Seq<char>)
    ensures
        spec_sanitize(value).len() > 0,
        forall|i: int|
            0 <= i < spec_sanitize(value).len() ==> !is_reserved_char(#[trigger] spec_sanitize(value)[i]),
        !spec_is_whitespace(spec_sanitize(value)[0]),
        !spec_is_whitespace(spec_sanitize(value).last()),
{
    let mapped = value.map_values(|c: char| replace_reserved(c));
    assert forall|i: int| 0 <= i < mapped.len() implies !is_reserved_char(#[trigger] mapped[i]) by {
        assert(mapped[i] == replace_reserved(value[i]));
    }
    let first = spec_trim(mapped, false);
    let (a, b) = lemma_trim_shape(mapped, false);
    let second = spec_trim(first, true);
    let (c, d) = lemma_trim_shape(first, true);
    let third = spec_trim(second, false);
    let (e, f) = lemma_trim_shape(second, false);
    assert forall|i: int| 0 <= i < third.len() implies !is_reserved_char(#[trigger] third[i]) by {
        assert(third[i] == second[e + i]);
        assert(second[e + i] == first[c + e + i]);
        assert(first[c + e + i] == mapped[a + c + e + i]);
    }
    if third.len() == 0 {
        reveal_strlit("未命名");
        assert(unnamed().len() == 3);
        assert forall|i: int| 0 <= i < unnamed().len() implies !is_reserved_char(
            #[trigger] unnamed()[i],
        ) by {}
    }
}

} // verus!
