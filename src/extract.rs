use vstd::prelude::*;

use crate::examples::{placeholder, placeholder_of};
use crate::kind::Language;
use crate::providers::{decode_entities, html_decoded, lowercase, lowercase_of};
use crate::text::{chars_of, decimal, decimal_string, occurs_at, starts_with_str, str_eq};

verus! {

/// A code block that a pattern found, with the text between the previous block (or
/// the start) and this one, the whole matched text, and its two captured groups:
/// the language hint and the code.
pub struct FoundBlock {
    pub before: String,
    pub whole: String,
    pub hint: String,
    pub code: String,
}

/// The plain-value view of a found block: `(before, whole, hint, code)`.
pub open spec fn block_view(b: FoundBlock) -> (Seq<char>, Seq<char>, Seq<char>, Seq<char>) {
    (b.before@, b.whole@, b.hint@, b.code@)
}

/// The blocks of a split, as plain values.
pub open spec fn blocks_view(bs: Seq<FoundBlock>) -> Seq<(Seq<char>, Seq<char>, Seq<char>, Seq<char>)> {
    bs.map_values(|b: FoundBlock| block_view(b))
}

/// The text a split came from: each block's preceding text and matched text, in
/// order, then the tail.
pub open spec fn rejoined(
    blocks: Seq<(Seq<char>, Seq<char>, Seq<char>, Seq<char>)>,
    tail: Seq<char>,
) -> Seq<char>
    decreases blocks.len(),
{
    if blocks.len() == 0 {
        tail
    } else {
        blocks[0].0 + blocks[0].1 + rejoined(blocks.drop_first(), tail)
    }
}

/// The blocks and tail of a Markdown text: its fenced code blocks.
pub uninterp spec fn markdown_split(s: Seq<char>) -> (
    Seq<(Seq<char>, Seq<char>, Seq<char>, Seq<char>)>,
    Seq<char>,
);

/// The blocks and tail of an HTML text: its `<pre><code class=...>` blocks.
pub uninterp spec fn html_split(s: Seq<char>) -> (
    Seq<(Seq<char>, Seq<char>, Seq<char>, Seq<char>)>,
    Seq<char>,
);

/// A fenced block as it stands in Markdown: three backticks, the info word, a newline,
/// the code, three backticks.
pub open spec fn fenced(hint: Seq<char>, code: Seq<char>) -> Seq<char> {
    seq!['`', '`', '`'] + hint + seq!['\n'] + code + seq!['`', '`', '`']
}

/// Relies on regex::Regex::captures_iter with the pattern ```` ```(\w*)\n([\s\S]*?)``` ````:
/// the leftmost non-overlapping matches in order, each with its two groups; the text
/// between matches and after the last one is taken as it stands. Each match is the two
/// groups between the fence, newline and fence of the pattern.
#[verifier::external_body]
fn split_markdown(content: &str) -> (r: (Vec<FoundBlock>, String))
    ensures
        (blocks_view(r.0@), r.1@) == markdown_split(content@),
        rejoined(blocks_view(r.0@), r.1@) == content@,
        forall|i: int|
            0 <= i < r.0@.len() ==> #[trigger] r.0@[i].whole@ == fenced(r.0@[i].hint@, r.0@[i].code@),
{
    let re = regex::Regex::new(r"```(\w*)\n([\s\S]*?)```").unwrap();
    let mut found = Vec::new();
    let mut last: usize = 0;
    for caps in re.captures_iter(content) {
        let m = caps.get(0).unwrap();
        let before = content[last..m.start()].to_string();
        found.push(FoundBlock { before, whole: m.as_str().to_string(), hint: caps[1].to_string(), code: caps[2].to_string() });
        last = m.end();
    }
    (found, content[last..].to_string())
}

/// Relies on regex::Regex::captures_iter with the pattern
/// `<pre[^>]*>\s*<code[^>]*class="([^"]*)"[^>]*>([\s\S]*?)</code>\s*</pre>`: the leftmost
/// non-overlapping matches in order, each with its two groups; the text between
/// matches and after the last one is taken as it stands.
#[verifier::external_body]
fn split_html(content: &str) -> (r: (Vec<FoundBlock>, String))
    ensures
        (blocks_view(r.0@), r.1@) == html_split(content@),
        rejoined(blocks_view(r.0@), r.1@) == content@,
{
    let re = regex::Regex::new(r#"<pre[^>]*>\s*<code[^>]*class="([^"]*)"[^>]*>([\s\S]*?)</code>\s*</pre>"#).unwrap();
    let mut found = Vec::new();
    let mut last: usize = 0;
    for caps in re.captures_iter(content) {
        let m = caps.get(0).unwrap();
        let before = content[last..m.start()].to_string();
        found.push(FoundBlock { before, whole: m.as_str().to_string(), hint: caps[1].to_string(), code: caps[2].to_string() });
        last = m.end();
    }
    (found, content[last..].to_string())
}

/// A code block taken out of a document, with the key of the placeholder left in
/// its place.
#[derive(Debug, Clone)]
pub struct ExtractedExample {
    pub placeholder_key: String,
    pub language: Option<Language>,
    pub data: String,
}

/// The key of the `i`-th block taken out of one document: `ex<i>`.
pub open spec fn example_key(i: nat) -> Seq<char> {
    "ex"@ + decimal(i)
}

/// The document with each block from the `start`-th on replaced by its placeholder.
pub open spec fn with_placeholders(
    blocks: Seq<(Seq<char>, Seq<char>, Seq<char>, Seq<char>)>,
    tail: Seq<char>,
    start: nat,
) -> Seq<char>
    decreases blocks.len(),
{
    if blocks.len() == 0 {
        tail
    } else {
        blocks[0].0 + placeholder_of(example_key(start)) + with_placeholders(
            blocks.drop_first(),
            tail,
            start + 1,
        )
    }
}

/// The document with each block replaced by its stored code.
pub open spec fn with_code(
    blocks: Seq<(Seq<char>, Seq<char>, Seq<char>, Seq<char>)>,
    tail: Seq<char>,
    html: bool,
) -> Seq<char>
    decreases blocks.len(),
{
    if blocks.len() == 0 {
        tail
    } else {
        blocks[0].0 + block_code(blocks[0].3, html) + with_code(blocks.drop_first(), tail, html)
    }
}

/// The document with each block removed.
pub open spec fn without_blocks(
    blocks: Seq<(Seq<char>, Seq<char>, Seq<char>, Seq<char>)>,
    tail: Seq<char>,
) -> Seq<char>
    decreases blocks.len(),
{
    if blocks.len() == 0 {
        tail
    } else {
        blocks[0].0 + without_blocks(blocks.drop_first(), tail)
    }
}

/// Whether a lower-case word names Nix.
pub open spec fn names_nix(word: Seq<char>) -> bool {
    word == "nix"@
}

/// The language of a Markdown info string.
pub open spec fn markdown_language(hint: Seq<char>) -> Option<Language> {
    if names_nix(lowercase_of(hint)) {
        Some(Language::Nix)
    } else {
        None
    }
}

/// Whether `c` is white space as `char::is_whitespace` defines it (Unicode
/// `White_Space`), which is what separates the tokens of a class attribute.
pub open spec fn is_space(c: char) -> bool {
    ('\u{9}' <= c <= '\u{d}') || c == ' ' || c == '\u{85}' || c == '\u{a0}' || c == '\u{1680}'
        || ('\u{2000}' <= c <= '\u{200a}') || c == '\u{2028}' || c == '\u{2029}' || c
        == '\u{202f}' || c == '\u{205f}' || c == '\u{3000}'
}

/// Whether the token `w` stands at position `i` of `s`: preceded by white space or the
/// start, followed by white space or the end.
pub open spec fn token_at(s: Seq<char>, i: int, w: Seq<char>) -> bool {
    occurs_at(s, i, w) && (i == 0 || is_space(s[i - 1])) && (i + w.len() == s.len() || is_space(
        s[i + w.len()],
    ))
}

/// Whether `w` is one of the white-space separated tokens of `s`.
pub open spec fn has_token(s: Seq<char>, w: Seq<char>) -> bool {
    exists|i: int| 0 <= i < s.len() && #[trigger] token_at(s, i, w)
}

/// The language of a lower-case class attribute: Nix where one of its tokens is
/// `nix` or `language-nix`.
pub open spec fn class_language(lower: Seq<char>) -> Option<Language> {
    if has_token(lower, "nix"@) || has_token(lower, "language-nix"@) {
        Some(Language::Nix)
    } else {
        None
    }
}

fn is_space_exec(c: char) -> (r: bool)
    ensures
        r == is_space(c),
{
    ('\u{9}' <= c && c <= '\u{d}') || c == ' ' || c == '\u{85}' || c == '\u{a0}' || c == '\u{1680}'
        || ('\u{2000}' <= c && c <= '\u{200a}') || c == '\u{2028}' || c == '\u{2029}' || c
        == '\u{202f}' || c == '\u{205f}' || c == '\u{3000}'
}

fn token_at_exec(s: &Vec<char>, i: usize, w: &Vec<char>) -> (r: bool)
    requires
        i < s@.len(),
    ensures
        r == token_at(s@, i as int, w@),
{
    if !crate::text::occurs_at_exec(s, i, w) {
        return false;
    }
    let n = s.len();
    assert(i + w@.len() <= n);
    let end: usize = i + w.len();
    let before = if i == 0 {
        true
    } else {
        let prev: usize = i - 1;
        is_space_exec(s[prev])
    };
    let after = end == n || is_space_exec(s[end]);
    before && after
}

fn has_token_exec(s: &Vec<char>, w: &Vec<char>) -> (r: bool)
    ensures
        r == has_token(s@, w@),
{
    let mut i: usize = 0;
    while i < s.len()
        invariant
            0 <= i <= s@.len(),
            forall|v: int| 0 <= v < i ==> !#[trigger] token_at(s@, v, w@),
        decreases s@.len() - i,
    {
        if token_at_exec(s, i, w) {
            return true;
        }
        i = i + 1;
    }
    false
}

/// The language that a lower-case class attribute names, if any.
pub fn language_of_class(lower: &str) -> (r: Option<Language>)
    ensures
        r == class_language(lower@),
{
    let cs = chars_of(lower);
    let nix = chars_of("nix");
    let tagged = chars_of("language-nix");
    if has_token_exec(&cs, &nix) || has_token_exec(&cs, &tagged) {
        Some(Language::Nix)
    } else {
        None
    }
}

/// The language that a Markdown info string names, if any.
pub fn language_of_hint(hint: &str) -> (r: Option<Language>)
    ensures
        r == markdown_language(hint@),
{
    let l = lowercase(hint);
    if str_eq(l.as_str(), "nix") {
        Some(Language::Nix)
    } else {
        None
    }
}

/// Where the placeholder of the `i`-th block stands in
/// `with_placeholders(blocks, tail, start)`.
pub open spec fn placeholder_offset(
    blocks: Seq<(Seq<char>, Seq<char>, Seq<char>, Seq<char>)>,
    start: nat,
    i: nat,
) -> int
    decreases i,
{
    if i == 0 {
        blocks[0].0.len() as int
    } else {
        blocks[0].0.len() + placeholder_of(example_key(start)).len() + placeholder_offset(
            blocks.drop_first(),
            start + 1,
            (i - 1) as nat,
        )
    }
}

proof fn lemma_occurs_after(x: Seq<char>, w: Seq<char>, k: int, p: Seq<char>)
    requires
        occurs_at(w, k, p),
    ensures
        occurs_at(x + w, x.len() + k, p),
{
    assert((x + w).subrange(x.len() + k, x.len() + k + p.len()) =~= w.subrange(k, k + p.len()));
}

proof fn lemma_placeholder_stands(
    blocks: Seq<(Seq<char>, Seq<char>, Seq<char>, Seq<char>)>,
    tail: Seq<char>,
    start: nat,
    i: nat,
)
    requires
        i < blocks.len(),
    ensures
        occurs_at(
            with_placeholders(blocks, tail, start),
            placeholder_offset(blocks, start, i),
            placeholder_of(example_key(start + i)),
        ),
    decreases i,
{
    let ph = placeholder_of(example_key(start));
    let rest = with_placeholders(blocks.drop_first(), tail, start + 1);
    assert(with_placeholders(blocks, tail, start) == blocks[0].0 + ph + rest);
    if i == 0 {
        let w = ph + rest;
        assert(occurs_at(w, 0, ph)) by {
            assert(w.subrange(0, ph.len() as int) =~= ph);
        }
        lemma_occurs_after(blocks[0].0, w, 0, ph);
        assert(blocks[0].0 + w =~= blocks[0].0 + ph + rest);
    } else {
        lemma_placeholder_stands(blocks.drop_first(), tail, start + 1, (i - 1) as nat);
        let k = placeholder_offset(blocks.drop_first(), start + 1, (i - 1) as nat);
        lemma_occurs_after(blocks[0].0 + ph, rest, k, placeholder_of(example_key(start + i)));
        assert(start + 1 + (i - 1) == start + i);
    }
}

/// Each block taken out of a document leaves its placeholder behind: the placeholder
/// for key `ex<i>` stands in the rewritten document, at the place of the `i`-th block.
pub proof fn law_extracted_placeholders_stand(
    blocks: Seq<(Seq<char>, Seq<char>, Seq<char>, Seq<char>)>,
    tail: Seq<char>,
    i: nat,
)
    requires
        i < blocks.len(),
    ensures
        occurs_at(
            with_placeholders(blocks, tail, 0),
            placeholder_offset(blocks, 0, i),
            placeholder_of(example_key(i)),
        ),
{
    lemma_placeholder_stands(blocks, tail, 0, i);
}

/// The language of a block's hint: a Markdown info string, or an HTML class attribute.
pub open spec fn hint_language(hint: Seq<char>, html: bool) -> Option<Language> {
    if html {
        class_language(lowercase_of(hint))
    } else {
        markdown_language(hint)
    }
}

/// The stored code of a block: HTML code has its character references decoded.
pub open spec fn block_code(code: Seq<char>, html: bool) -> Seq<char> {
    if html {
        html_decoded(code)
    } else {
        code
    }
}

/// Whether `x` is the example taken out as the `i`-th of `b`.
pub open spec fn extracted_as(
    x: ExtractedExample,
    i: nat,
    b: (Seq<char>, Seq<char>, Seq<char>, Seq<char>),
    html: bool,
) -> bool {
    &&& x.placeholder_key@ == example_key(i)
    &&& x.language == hint_language(b.2, html)
    &&& x.data@ == block_code(b.3, html)
}

/// The key `ex<i>`.
fn example_key_string(i: usize) -> (r: String)
    ensures
        r@ == example_key(i as nat),
{
    let mut r = "ex".to_owned();
    let d = decimal_string(i as u64);
    r.append(d.as_str());
    r
}

/// Replaces each found block by a placeholder `{{NGL_EX:ex<i>}}`, numbered from zero,
/// and takes the blocks out as examples under those keys.
pub fn assemble_extraction(blocks: &Vec<FoundBlock>, tail: &str, html: bool) -> (r: (
    String,
    Vec<ExtractedExample>,
))
    ensures
        r.0@ == with_placeholders(blocks_view(blocks@), tail@, 0),
        r.1@.len() == blocks@.len(),
        forall|i: int|
            0 <= i < r.1@.len() ==> #[trigger] extracted_as(
                r.1@[i],
                i as nat,
                blocks_view(blocks@)[i],
                html,
            ),
{
    let ghost all = blocks_view(blocks@);
    let n = blocks.len();
    let mut out = String::new();
    let mut xs: Vec<ExtractedExample> = Vec::new();
    let mut i: usize = 0;
    assert(all.subrange(0, n as int) =~= all);
    while i < n
        invariant
            n == blocks@.len(),
            all == blocks_view(blocks@),
            0 <= i <= n,
            xs@.len() == i,
            with_placeholders(all, tail@, 0) == out@ + with_placeholders(
                all.subrange(i as int, n as int),
                tail@,
                i as nat,
            ),
            forall|j: int| 0 <= j < i ==> #[trigger] extracted_as(xs@[j], j as nat, all[j], html),
        decreases n - i,
    {
        let b = &blocks[i];
        let key = example_key_string(i);
        let marker = placeholder(key.as_str());
        let ghost before_out = out@;
        out.append(b.before.as_str());
        out.append(marker.as_str());
        let language = if html {
            let l = lowercase(b.hint.as_str());
            language_of_class(l.as_str())
        } else {
            language_of_hint(b.hint.as_str())
        };
        let data = if html {
            decode_entities(b.code.as_str())
        } else {
            b.code.clone()
        };
        proof {
            let rest = all.subrange(i as int, n as int);
            assert(rest[0] == all[i as int]);
            assert(rest.drop_first() =~= all.subrange(i + 1, n as int));
            assert(all[i as int] == block_view(blocks@[i as int]));
            assert(out@ =~= before_out + all[i as int].0 + placeholder_of(example_key(i as nat)));
        }
        xs.push(ExtractedExample { placeholder_key: key, language, data });
        i = i + 1;
    }
    out.append(tail);
    proof {
        assert(all.subrange(n as int, n as int).len() == 0);
    }
    (out, xs)
}

/// Takes the fenced code blocks out of a Markdown document: each is replaced by a
/// placeholder and returned as an example under the placeholder's key, with the
/// language its info string names.
pub fn extract_examples_markdown(content: &str) -> (r: (String, Vec<ExtractedExample>))
    ensures
        ({
            let (blocks, tail) = markdown_split(content@);
            &&& rejoined(blocks, tail) == content@
            &&& forall|i: int| 0 <= i < blocks.len() ==> #[trigger] blocks[i].1 == fenced(blocks[i].2, blocks[i].3)
            &&& r.0@ == with_placeholders(blocks, tail, 0)
            &&& r.1@.len() == blocks.len()
            &&& forall|i: int|
                0 <= i < r.1@.len() ==> #[trigger] extracted_as(r.1@[i], i as nat, blocks[i], false)
        }),
{
    let (blocks, tail) = split_markdown(content);
    proof {
        let bv = blocks_view(blocks@);
        assert forall|i: int| 0 <= i < bv.len() implies #[trigger] bv[i].1 == fenced(bv[i].2, bv[i].3) by {
            assert(bv[i] == block_view(blocks@[i]));
        }
    }
    assemble_extraction(&blocks, tail.as_str(), false)
}

/// Takes the `<pre><code>` blocks out of an HTML document: each is replaced by a
/// placeholder and returned as an example under the placeholder's key, with its
/// character references decoded and the language its class attribute names.
pub fn extract_examples_html(content: &str) -> (r: (String, Vec<ExtractedExample>))
    ensures
        ({
            let (blocks, tail) = html_split(content@);
            &&& rejoined(blocks, tail) == content@
            &&& r.0@ == with_placeholders(blocks, tail, 0)
            &&& r.1@.len() == blocks.len()
            &&& forall|i: int|
                0 <= i < r.1@.len() ==> #[trigger] extracted_as(r.1@[i], i as nat, blocks[i], true)
        }),
{
    let (blocks, tail) = split_html(content);
    assemble_extraction(&blocks, tail.as_str(), true)
}

} // verus!
