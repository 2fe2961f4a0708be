use noda::web::render::{body, rewrite, route, target, url_path, Around, Ev, Out, Route};

fn around() -> Around<'static> {
    Around::of(
        "work",
        &[
            ("k3f9m2p1".to_string(), "the-plan".to_string()),
            ("h9nrrr5n".to_string(), "deploys".to_string()),
        ],
    )
}

#[test]
fn a_link_to_another_note_becomes_that_notes_address() {
    let out = body("see [the plan](k3f9m2p1-the-plan.md) first", &around());
    assert!(out.contains("href=\"/nb/work/n/k3f9m2p1\""), "{out}");
    assert!(!out.contains(".md"), "{out}");
}

#[test]
fn only_a_link_to_a_note_is_marked_as_one() {
    let out = body(
        "[a note](k3f9m2p1-the-plan.md), [a file](rack.png), [a site](https://example.com)",
        &around(),
    );
    assert!(
        out.contains("<a class=\"note\" href=\"/nb/work/n/k3f9m2p1\">"),
        "{out}"
    );
    assert!(out.contains("<a href=\"/nb/work/f/rack.png\">"), "{out}");
    assert!(
        out.contains("<a href=\"https://example.com\" target=\"_blank\""),
        "{out}"
    );
    assert_eq!(out.matches("class=\"note\"").count(), 1, "{out}");
    assert_eq!(
        out.matches("<a ").count(),
        out.matches("</a>").count(),
        "{out}"
    );
}

#[test]
fn a_bare_address_becomes_the_link_it_looks_like() {
    let out = body("see https://example.com/plan for the rest", &around());
    assert!(
        out.contains(
            "<a href=\"https://example.com/plan\" target=\"_blank\" \
             rel=\"noopener noreferrer\">https://example.com/plan</a>"
        ),
        "{out}"
    );
    assert!(out.contains("see <a"), "{out}");
    assert!(out.contains("</a> for the rest"), "{out}");
}

#[test]
fn the_sentence_around_an_address_is_not_part_of_it() {
    for (markdown, want) in [
        ("go to https://a.example.", "https://a.example"),
        ("go to https://a.example, then", "https://a.example"),
        ("go to https://a.example/x?y=1!", "https://a.example/x?y=1"),
        ("(https://a.example)", "https://a.example"),
        (
            "https://en.example.org/A_(b)",
            "https://en.example.org/A_(b)",
        ),
    ] {
        let out = body(markdown, &around());
        assert!(
            out.contains(&format!("href=\"{want}\"")),
            "{markdown} gave {out}"
        );
    }
}

#[test]
fn an_address_the_parser_cut_up_is_still_one_address() {
    let out = body("https://en.example.org/wiki/Budget_(finance)", &around());
    assert!(
        out.contains("href=\"https://en.example.org/wiki/Budget_(finance)\""),
        "{out}"
    );
    assert_eq!(out.matches("<a ").count(), 1, "{out}");
}

#[test]
fn what_is_not_an_address_stays_words() {
    for markdown in ["xhttps://a.example", "https:// nothing", "http://"] {
        let out = body(markdown, &around());
        assert!(!out.contains("<a "), "{markdown} gave {out}");
    }
}

#[test]
fn an_address_in_code_or_in_a_link_is_left_where_it_is() {
    let inline = body("run `curl https://a.example`", &around());
    assert!(!inline.contains("<a "), "{inline}");

    let fenced = body("```\nhttps://a.example\n```", &around());
    assert!(!fenced.contains("<a "), "{fenced}");

    let raw = body("<p>https://a.example</p>", &around());
    assert!(!raw.contains("<a "), "{raw}");

    let inside = body("[https://a.example](k3f9m2p1-the-plan.md)", &around());
    assert_eq!(inside.matches("<a ").count(), 1, "{inside}");
    assert!(inside.contains("href=\"/nb/work/n/k3f9m2p1\""), "{inside}");
}

#[test]
fn a_link_that_leaves_carries_the_same_two_attributes_either_way() {
    let opening =
        "<a href=\"https://example.com\" target=\"_blank\" rel=\"noopener noreferrer\">";
    let written = body("[the site](https://example.com)", &around());
    assert!(written.contains(opening), "{written}");
    let bare = body("https://example.com", &around());
    assert!(bare.contains(opening), "{bare}");
}

#[test]
fn what_does_not_leave_the_notebook_is_opened_plainly() {
    let out = body(
        "[a note](k3f9m2p1-the-plan.md), [a file](rack.png), [here](#top), \
         [write](mailto:me@example.com)",
        &around(),
    );
    assert!(!out.contains("target="), "{out}");
    assert!(!out.contains("rel="), "{out}");
    assert_eq!(out.matches("<a ").count(), 4, "{out}");
}

#[test]
fn a_link_to_a_file_becomes_a_download() {
    let out = body("the [slides](last%20quarter.pdf) say", &around());
    assert!(
        out.contains("href=\"/nb/work/f/last%20quarter.pdf\""),
        "{out}"
    );
}

#[test]
fn an_image_is_embedded_from_the_notebook() {
    let out = body("![the rack](rack.png)", &around());
    assert!(out.contains("<img src=\"/nb/work/f/rack.png\""), "{out}");
    assert!(out.contains("alt=\"the rack\""), "{out}");
}

#[test]
fn a_script_url_keeps_its_words_and_loses_its_link() {
    let out = body("[press me](javascript:alert(1))", &around());
    assert!(out.contains("press me"), "{out}");
    assert!(!out.contains("javascript:"), "{out}");
    assert!(!out.contains("<a "), "{out}");

    let embedded = body(
        "![x](data:image/svg+xml;base64,PHN2Zz48L3N2Zz4=)",
        &around(),
    );
    assert!(!embedded.contains("<img"), "{embedded}");
    assert!(!embedded.contains("data:"), "{embedded}");
}

#[test]
fn a_path_that_climbs_out_of_the_notebook_leads_nowhere() {
    let out = body("[keys](../../.ssh/id_rsa)", &around());
    assert!(out.contains("keys"), "{out}");
    assert!(!out.contains("<a "), "{out}");
    assert!(!out.contains("id_rsa"), "{out}");
}

#[test]
fn an_ordinary_web_link_is_left_alone() {
    let out = body(
        "[docs](https://example.com/a) and <me@example.com>",
        &around(),
    );
    assert!(out.contains("href=\"https://example.com/a\""), "{out}");
    assert!(out.contains("mailto:me@example.com"), "{out}");
}

#[test]
fn raw_html_is_shown_as_code_and_never_as_markup() {
    let out = body("<div class=\"tc-tiddler\">imported</div>\n", &around());
    assert!(out.contains("<code class=\"language-html\">"), "{out}");
    assert!(out.contains("&lt;div class=\"tc-tiddler\"&gt;"), "{out}");
    assert!(!out.contains("<div class=\"tc-tiddler\">"), "{out}");

    let inline = body("a <script>alert(1)</script> here", &around());
    assert!(!inline.contains("<script>"), "{inline}");
    assert!(inline.contains("&lt;script&gt;"), "{inline}");
}

#[test]
fn a_task_list_is_boxes() {
    let out = body("- [x] shipped\n- [ ] not yet\n", &around());
    assert!(out.contains("type=\"checkbox\""), "{out}");
    assert!(out.contains("checked"), "{out}");
}

#[test]
fn ordinary_markdown_renders() {
    let out = body(
        "# Title\n\nA *word* and a table:\n\n| a | b |\n|---|---|\n| 1 | 2 |\n",
        &around(),
    );
    assert!(out.contains("<h1>Title</h1>"), "{out}");
    assert!(out.contains("<em>word</em>"), "{out}");
    assert!(out.contains("<table>"), "{out}");
}

#[test]
fn a_later_pair_for_the_same_file_stands_over_an_earlier_one() {
    let around = Around::of(
        "work",
        &[
            ("aaaa".to_string(), "x".to_string()),
            ("bbbb".to_string(), "x".to_string()),
        ],
    );
    assert_eq!(around.notes[0].0, "aaaa-x.md");
    match route("bbbb-x.md", &around, false) {
        Route::Note(url) => assert_eq!(url, "/nb/work/n/bbbb"),
        other => panic!("{other:?}"),
    }
}

#[test]
fn a_destination_is_walked_from_the_notebooks_root() {
    assert_eq!(target("a/./b/../c.md#top").as_deref(), Some("a/c.md"));
    assert_eq!(target("last%20quarter.pdf").as_deref(), Some("last quarter.pdf"));
    assert_eq!(target("../x"), None);
    assert_eq!(target("/etc/passwd"), None);
    assert_eq!(target("https://example.com"), None);
    assert_eq!(target("#top"), None);
}

#[test]
fn a_path_is_percent_encoded_but_keeps_its_slashes() {
    assert_eq!(url_path("a b/c#d?"), "a%20b/c%23d%3F");
    assert_eq!(url_path("é"), "%C3%A9");
}

#[test]
fn an_image_may_only_be_fetched_from_the_web_or_the_notebook() {
    let around = around();
    assert!(matches!(route("mailto:me@example.com", &around, true), Route::Nowhere));
    assert!(matches!(route("mailto:me@example.com", &around, false), Route::To(_)));
    assert!(matches!(route("HTTPS://example.com", &around, true), Route::Away(_)));
    assert!(matches!(route("k3f9m2p1-the-plan.md", &around, true), Route::Note(_)));
}

#[test]
fn prose_is_gathered_before_an_address_is_looked_for() {
    let evs = vec![
        Ev::Other,
        Ev::Text("see https://a.example/x".to_string()),
        Ev::Text("_y z".to_string()),
        Ev::Other,
    ];
    let out = rewrite(&evs, &around());
    let shown: Vec<String> = out.iter().map(|o| format!("{o:?}")).collect();
    assert_eq!(
        shown,
        vec![
            "Keep(0, None)".to_string(),
            "Text(\"see \")".to_string(),
            format!("{:?}", Out::Html("<a href=\"https://a.example/x_y\" target=\"_blank\" rel=\"noopener noreferrer\">".to_string())),
            "Text(\"https://a.example/x_y\")".to_string(),
            "Html(\"</a>\")".to_string(),
            "Text(\" z\")".to_string(),
            "Keep(3, None)".to_string(),
        ]
    );
}

#[test]
fn a_link_that_leads_nowhere_loses_both_its_tags() {
    let evs = vec![
        Ev::Link(false, "javascript:alert(1)".to_string()),
        Ev::Text("press".to_string()),
        Ev::EndLink,
    ];
    let out = rewrite(&evs, &around());
    let shown: Vec<String> = out.iter().map(|o| format!("{o:?}")).collect();
    assert_eq!(shown, vec!["Keep(1, None)".to_string()]);
}

#[test]
fn the_anchors_written_by_hand_balance() {
    let evs = vec![
        Ev::Link(false, "k3f9m2p1-the-plan.md".to_string()),
        Ev::Text("the plan".to_string()),
        Ev::EndLink,
        Ev::Text(" and https://a.example then ".to_string()),
        Ev::Link(false, "https://b.example".to_string()),
        Ev::Text("b".to_string()),
        Ev::EndLink,
        Ev::Link(false, "rack.png".to_string()),
        Ev::EndLink,
    ];
    let out = rewrite(&evs, &around());
    let opened = out
        .iter()
        .filter(|o| matches!(o, Out::Html(h) if h != "</a>"))
        .count();
    let closed = out
        .iter()
        .filter(|o| matches!(o, Out::Html(h) if h == "</a>"))
        .count();
    assert_eq!(opened, 3);
    assert_eq!(closed, 3);
}

#[test]
fn raw_html_never_reaches_the_page_as_markup() {
    let evs = vec![
        Ev::Open(true),
        Ev::Raw(false, "<div>x</div>".to_string()),
        Ev::Close,
        Ev::Raw(true, "<script>".to_string()),
    ];
    let out = rewrite(&evs, &around());
    let shown: Vec<String> = out.iter().map(|o| format!("{o:?}")).collect();
    assert_eq!(
        shown,
        vec![
            "OpenCode(\"html\")".to_string(),
            "Text(\"<div>x</div>\")".to_string(),
            "CloseCode".to_string(),
            "Code(\"<script>\")".to_string(),
        ]
    );
}
