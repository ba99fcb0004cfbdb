use vstd::prelude::*;

use crate::text::{occurs_at, replace_all, replace_all_str};

verus! {

/// The characters that open a placeholder: `{{NGL_EX:`.
pub open spec fn marker_open() -> Seq<char> {
    seq!['{', '{', 'N', 'G', 'L', '_', 'E', 'X', ':']
}

/// The characters that close a placeholder: `}}`.
pub open spec fn marker_close() -> Seq<char> {
    seq!['}', '}']
}

/// The placeholder token that stands for the example stored under `key`.
pub open spec fn placeholder_of(key: Seq<char>) -> Seq<char> {
    marker_open() + key + marker_close()
}

/// Stitching: each pair `(key, code)` in turn replaces every placeholder for `key`
/// by `code`.
pub open spec fn stitch(content: Seq<char>, pairs: Seq<(Seq<char>, Seq<char>)>) -> Seq<char>
    decreases pairs.len(),
{
    if pairs.len() == 0 {
        content
    } else {
        stitch(
            replace_all(content, placeholder_of(pairs[0].0), pairs[0].1),
            pairs.subrange(1, pairs.len() as int),
        )
    }
}

/// The plain-value view of a list of `(key, code)` pairs.
pub open spec fn pairs_view(pairs: Seq<(String, String)>) -> Seq<(Seq<char>, Seq<char>)> {
    pairs.map_values(|p: (String, String)| (p.0@, p.1@))
}

/// The number of characters from `i` on before the first `}` (or the end).
pub open spec fn key_run(s: Seq<char>, i: int) -> nat
    decreases s.len() - i,
{
    if i < 0 || i >= s.len() || s[i] == '}' {
        0
    } else {
        1 + key_run(s, i + 1)
    }
}

/// Whether a placeholder, `{{NGL_EX:` then one or more characters other than `}`
/// then `}}`, starts at position `i` of `s`.
pub open spec fn marker_at(s: Seq<char>, i: int) -> bool {
    occurs_at(s, i, marker_open()) && key_run(s, i + 9) > 0 && occurs_at(
        s,
        i + 9 + key_run(s, i + 9),
        marker_close(),
    )
}

/// The length of the placeholder that starts at `i`.
pub open spec fn marker_len(s: Seq<char>, i: int) -> int {
    11 + key_run(s, i + 9) as int
}

/// Whether `s` holds no placeholder at all.
pub open spec fn marker_free(s: Seq<char>) -> bool {
    forall|i: int| 0 <= i < s.len() ==> !#[trigger] marker_at(s, i)
}

/// `s` with every placeholder, taken from the left without overlap, removed.
pub open spec fn strip_markers(s: Seq<char>) -> Seq<char>
    decreases s.len(),
{
    if s.len() == 0 {
        s
    } else if marker_at(s, 0) {
        if marker_len(s, 0) <= s.len() {
            strip_markers(s.subrange(marker_len(s, 0), s.len() as int))
        } else {
            s
        }
    } else {
        seq![s[0]] + strip_markers(s.subrange(1, s.len() as int))
    }
}

/// Relies on regex::Regex::replace_all with the pattern `\{\{NGL_EX:[^}]+\}\}` and an
/// empty replacement: every leftmost, non-overlapping match is removed.
#[verifier::external_body]
fn remove_markers(content: &str) -> (r: String)
    ensures
        r@ == strip_markers(content@),
{
    let re = regex::Regex::new(r"\{\{NGL_EX:[^}]+\}\}").unwrap();
    re.replace_all(content, "").into_owned()
}

/// The placeholder token for `key`: `{{NGL_EX:<key>}}`.
pub fn placeholder(key: &str) -> (r: String)
    ensures
        r@ == placeholder_of(key@),
{
    let mut r = "{{NGL_EX:".to_owned();
    r.append(key);
    r.append("}}");
    proof {
        reveal_strlit("{{NGL_EX:");
        reveal_strlit("}}");
        assert(r@ =~= placeholder_of(key@));
    }
    r
}

/// Replaces, for each `(key, code)` pair in turn, every placeholder for `key` in
/// `content` by `code`.
pub fn stitch_examples(content: &str, examples: &Vec<(String, String)>) -> (r: String)
    ensures
        r@ == stitch(content@, pairs_view(examples@)),
{
    let ghost all = pairs_view(examples@);
    let mut result = content.to_owned();
    let mut i: usize = 0;
    proof {
        assert(all.subrange(0, all.len() as int) =~= all);
    }
    while i < examples.len()
        invariant
            all == pairs_view(examples@),
            0 <= i <= examples@.len(),
            stitch(content@, all) == stitch(result@, all.subrange(i as int, all.len() as int)),
        decreases examples@.len() - i,
    {
        let key = &examples[i].0;
        let code = &examples[i].1;
        let marker = placeholder(key.as_str());
        proof {
            let rest = all.subrange(i as int, all.len() as int);
            assert(rest[0] == (key@, code@));
            assert(rest.subrange(1, rest.len() as int) =~= all.subrange(
                i + 1,
                all.len() as int,
            ));
            assert(marker@.len() > 0);
        }
        result = replace_all_str(result.as_str(), marker.as_str(), code.as_str());
        i = i + 1;
    }
    proof {
        assert(all.subrange(all.len() as int, all.len() as int) =~= Seq::<
            (Seq<char>, Seq<char>),
        >::empty());
    }
    result
}

/// Removes every placeholder left in `content`.
pub fn strip_placeholders(content: &str) -> (r: String)
    ensures
        r@ == strip_markers(content@),
{
    remove_markers(content)
}

/// The read-side treatment of a stored body: stitched with its examples where they
/// are requested, stripped of placeholders otherwise.
pub open spec fn rendered_body(
    data: Seq<char>,
    pairs: Seq<(Seq<char>, Seq<char>)>,
    include_examples: bool,
) -> Seq<char> {
    if include_examples {
        stitch(data, pairs)
    } else {
        strip_markers(data)
    }
}

/// Stitches the examples into `data` where `include_examples` holds, and strips the
/// placeholders from it otherwise.
pub fn render_body(data: &str, examples: &Vec<(String, String)>, include_examples: bool) -> (r:
    String)
    ensures
        r@ == rendered_body(data@, pairs_view(examples@), include_examples),
{
    if include_examples {
        stitch_examples(data, examples)
    } else {
        strip_placeholders(data)
    }
}

} // verus!
