use ngl::examples::{placeholder, render_body, stitch_examples, strip_placeholders};
use ngl::extract::{extract_examples_html, extract_examples_markdown, language_of_class, language_of_hint};
use ngl::kind::Language;

#[test]
fn placeholder_token() {
    assert_eq!(placeholder("ex0"), "{{NGL_EX:ex0}}");
}

#[test]
fn stitch_replaces_each_key() {
    let pairs = vec![
        ("ex0".to_string(), "map (x:x+1) [1 2]".to_string()),
        ("ex1".to_string(), "B".to_string()),
    ];
    let out = stitch_examples("a {{NGL_EX:ex0}} b {{NGL_EX:ex1}} {{NGL_EX:ex0}}", &pairs);
    assert_eq!(out, "a map (x:x+1) [1 2] b B map (x:x+1) [1 2]");
}

#[test]
fn stitch_does_not_confuse_similar_keys() {
    let pairs = vec![("ex1".to_string(), "ONE".to_string())];
    assert_eq!(stitch_examples("{{NGL_EX:ex10}} {{NGL_EX:ex1}}", &pairs), "{{NGL_EX:ex10}} ONE");
}

#[test]
fn stitch_is_idempotent_for_the_same_pairs() {
    let pairs = vec![("k".to_string(), "code".to_string())];
    let once = stitch_examples("x {{NGL_EX:k}} y", &pairs);
    assert_eq!(stitch_examples(&once, &pairs), once);
}

#[test]
fn strip_removes_placeholders() {
    assert_eq!(strip_placeholders("a {{NGL_EX:ex0}} b {{NGL_EX:x y}}c"), "a  b c");
    assert_eq!(strip_placeholders("keep {{NGL_EX:}} and {{other}}"), "keep {{NGL_EX:}} and {{other}}");
    assert_eq!(strip_placeholders(""), "");
}

#[test]
fn render_body_chooses_stitch_or_strip() {
    let pairs = vec![("ex0".to_string(), "code".to_string())];
    assert_eq!(render_body("a {{NGL_EX:ex0}}", &pairs, true), "a code");
    assert_eq!(render_body("a {{NGL_EX:ex0}}", &pairs, false), "a ");
}

#[test]
fn markdown_extraction() {
    let c = "intro\n```nix\nmap f xs\n```\nmid\n```\nplain\n```\nend";
    let (out, xs) = extract_examples_markdown(c);
    assert_eq!(out, "intro\n{{NGL_EX:ex0}}\nmid\n{{NGL_EX:ex1}}\nend");
    assert_eq!(xs.len(), 2);
    assert_eq!(xs[0].placeholder_key, "ex0");
    assert_eq!(xs[0].language, Some(Language::Nix));
    assert_eq!(xs[0].data, "map f xs\n");
    assert_eq!(xs[1].placeholder_key, "ex1");
    assert_eq!(xs[1].language, None);
    assert_eq!(xs[1].data, "plain\n");
}

#[test]
fn markdown_extraction_round_trip() {
    let c = "a\n```nix\nx + 1\n```\nb";
    let (out, xs) = extract_examples_markdown(c);
    let pairs: Vec<(String, String)> =
        xs.iter().map(|x| (x.placeholder_key.clone(), x.data.clone())).collect();
    assert_eq!(stitch_examples(&out, &pairs), "a\nx + 1\n\nb");
    assert_eq!(strip_placeholders(&out), "a\n\nb");
}

#[test]
fn markdown_without_blocks_is_unchanged() {
    let (out, xs) = extract_examples_markdown("no code here");
    assert_eq!(out, "no code here");
    assert!(xs.is_empty());
}

#[test]
fn html_extraction() {
    let c = "<p>x</p><pre><code class=\"language-nix\">a &amp;&amp; b</code></pre><p>y</p>";
    let (out, xs) = extract_examples_html(c);
    assert_eq!(out, "<p>x</p>{{NGL_EX:ex0}}<p>y</p>");
    assert_eq!(xs.len(), 1);
    assert_eq!(xs[0].data, "a && b");
    assert_eq!(xs[0].language, Some(Language::Nix));
}

#[test]
fn html_language_from_bare_class_word() {
    let c = "<pre class=\"p\">\n<code class=\"programlisting NIX\">x</code>\n</pre>";
    let (out, xs) = extract_examples_html(c);
    assert_eq!(out, "{{NGL_EX:ex0}}");
    assert_eq!(xs[0].language, Some(Language::Nix));
}

#[test]
fn class_languages() {
    assert_eq!(language_of_class("language-nix"), Some(Language::Nix));
    assert_eq!(language_of_class("language-nix extra"), Some(Language::Nix));
    assert_eq!(language_of_class("language-bash nix"), Some(Language::Nix));
    assert_eq!(language_of_class("language-rust nix"), Some(Language::Nix));
    assert_eq!(language_of_class("foo language-nix"), Some(Language::Nix));
    assert_eq!(language_of_class("foo\u{a0}nix"), Some(Language::Nix));
    assert_eq!(language_of_class("language-nixos"), None);
    assert_eq!(language_of_class("language-bash"), None);
    assert_eq!(language_of_class("highlight nix"), Some(Language::Nix));
    assert_eq!(language_of_class("nixos"), None);
    assert_eq!(language_of_class(""), None);
}

#[test]
fn hint_languages() {
    assert_eq!(language_of_hint("Nix"), Some(Language::Nix));
    assert_eq!(language_of_hint("bash"), None);
    assert_eq!(language_of_hint(""), None);
}

#[test]
fn html_extraction_round_trip() {
    let c = "<p>a{b}</p><pre><code class=\"language-nix\">{ x = 1; } &lt; 2</code></pre><p>z</p>";
    let (out, xs) = extract_examples_html(c);
    let pairs: Vec<(String, String)> =
        xs.iter().map(|x| (x.placeholder_key.clone(), x.data.clone())).collect();
    assert_eq!(stitch_examples(&out, &pairs), "<p>a{b}</p>{ x = 1; } < 2<p>z</p>");
    assert_eq!(strip_placeholders(&out), "<p>a{b}</p><p>z</p>");
}

#[test]
fn markdown_round_trip_with_nix_braces() {
    let c = "set:\n```nix\n{ pkgs, ... }: { }\n```\nend {x}";
    let (out, xs) = extract_examples_markdown(c);
    let pairs: Vec<(String, String)> =
        xs.iter().map(|x| (x.placeholder_key.clone(), x.data.clone())).collect();
    assert_eq!(stitch_examples(&out, &pairs), "set:\n{ pkgs, ... }: { }\n\nend {x}");
}
