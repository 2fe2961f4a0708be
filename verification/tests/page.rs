use noda::note::{Note, NoteFile};
use noda::sort::Sort;
use noda::web::asset::Asset;
use noda::web::markup::day;
use noda::web::page::{
    backlinks, backlinks_rows, composing, deleting, renaming, tagging, Draft, escape, files, highlight, listing, listing_pane, listing_screen, note,
    note_pane, notebooks, size, standing, standing_main, stylesheet, tags, todo, About, Asked, Book, Errand, Held,
    Order, Reading, Row, Standing, Subject, Tally, Task, DOWNWARDS, UPWARDS,
};

#[test]
fn an_empty_screen_is_not_poured_into_columns() {
    let no_tags = tags("work", &[]);
    assert!(no_tags.contains("No tags yet"), "{no_tags}");
    assert!(no_tags.contains("<main class=\"rows\">"), "{no_tags}");

    let no_files = files("work", &[]);
    assert!(no_files.contains("No files yet"), "{no_files}");
    assert!(no_files.contains("<main class=\"rows\">"), "{no_files}");

    let some_tags = tags("work", &[Tally { tag: "ops".into(), notes: 2 }]);
    assert!(some_tags.contains("<main class=\"rows cols\">"), "{some_tags}");

    let some_files = files(
        "work",
        &[Held { name: "rack.png".into(), size: 4096, kind: "image/png".into(), used: 1 }],
    );
    assert!(some_files.contains("<main class=\"rows cols wide\">"), "{some_files}");
}

#[test]
fn a_note_cannot_write_markup_into_the_page() {
    let out = escape("<script>alert('x')</script> & \"quoted\"");
    assert!(!out.contains('<'), "{out}");
    assert!(!out.contains('>'), "{out}");
    assert_eq!(out, "&lt;script&gt;alert(&#39;x&#39;)&lt;/script&gt; &amp; &quot;quoted&quot;");
}

#[test]
fn the_rendered_body_is_written_out_as_it_stands() {
    let page = note(
        "work",
        &Reading {
            id: "k3f9".into(),
            slug: "notes".into(),
            title: "Notes".into(),
            tags: vec![],
            created: None,
            updated: None,
            rendered: "<p>a <em>rendered</em> note</p>".into(),
            pinned: false,
        },
        "in sync",
    );
    assert!(page.contains("<p>a <em>rendered</em> note</p>"), "{page}");
}

#[test]
fn a_listing_shows_the_day_and_never_a_clock() {
    assert_eq!(day("2019-03-14T16:21:00+08:00"), "2019-03-14");
    assert_eq!(day("2026-08-15T08:59:03Z"), "2026-08-15");
    assert_eq!(day("last tuesday"), "last tuesday");
    assert_eq!(day(""), "");
}

#[test]
fn the_note_page_prints_both_stamps_as_the_file_holds_them() {
    let page = note(
        "work",
        &Reading {
            id: "k3f9".into(),
            slug: "notes".into(),
            title: "Notes".into(),
            tags: vec![],
            created: Some("2026-08-12T08:03:00Z".into()),
            updated: Some("2026-08-15T09:54:23Z".into()),
            rendered: String::new(),
            pinned: false,
        },
        "in sync",
    );
    for (what, value) in [("created", "2026-08-12T08:03:00Z"), ("updated", "2026-08-15T09:54:23Z")] {
        assert!(page.contains(&format!("{what} <time datetime=\"{value}\" data-clock>{value}</time>")), "{page}");
    }
    assert!(!page.contains(">created 20"), "{page}");
}

#[test]
fn the_matched_run_is_marked_and_the_rest_is_escaped() {
    let out = highlight("Budget <review>", &["budget".to_string()]);
    assert_eq!(out, "<mark>Budget</mark> &lt;review&gt;");
    assert_eq!(highlight("a & b", &[]), "a &amp; b");
}

#[test]
fn overlapping_terms_mark_one_run() {
    let out = highlight("budgeting", &["budget".to_string(), "budgeting".to_string()]);
    assert_eq!(out, "<mark>budgeting</mark>");
}

fn row(id: &str, title: &str, shown: bool) -> Row {
    Row {
        id: id.into(),
        title: title.into(),
        tags: vec!["work".into()],
        stamp: Some("2026-08-12T08:03:00Z".into()),
        shown,
        pinned: false,
    }
}

#[test]
fn the_default_order_writes_no_parameter_and_the_rest_write_one() {
    let page = listing("work", &[row("k3f9", "Budget review", true)], &Asked::nothing(), Order::default(), "in sync", None);
    assert!(page.contains("<nav class=\"sortbar\""), "{page}");
    assert!(page.contains("href=\"/nb/work?r=1\""), "{page}");
    assert!(page.contains("href=\"/nb/work?sort=created\""), "{page}");
    assert!(page.contains("href=\"/nb/work?sort=updated\""), "{page}");
    assert!(page.contains("href=\"/nb/work?sort=title\""), "{page}");
    assert!(!page.contains("name=\"sort\""), "{page}");
    assert!(!page.contains("name=\"r\""), "{page}");
}

#[test]
fn every_order_the_command_names_is_on_the_screen() {
    let page = listing("work", &[], &Asked::nothing(), Order::default(), "in sync", None);
    for sort in Sort::all() {
        assert!(
            page.contains(&format!("<span class=\"pill\">{}", sort.name())),
            "the browser stopped offering {}: {page}",
            sort.name()
        );
    }
}

#[test]
fn the_order_in_force_reverses_and_the_others_start_the_right_way_up() {
    let order = Order { sort: Sort::Updated, reversed: false };
    let page = listing("work", &[], &Asked::nothing(), order, "in sync", None);
    assert!(page.contains("href=\"/nb/work?sort=updated&amp;r=1\""), "{page}");
    assert!(page.contains("href=\"/nb/work?sort=title\""), "{page}");
    assert!(page.contains("href=\"/nb/work\""), "{page}");

    let back = listing("work", &[], &Asked::nothing(), Order { sort: Sort::Updated, reversed: true }, "in sync", None);
    assert!(back.contains("href=\"/nb/work?sort=updated\""), "{back}");
    assert!(!back.contains("sort=title&r=1"), "{back}");
    assert!(back.contains(UPWARDS), "{back}");
    assert!(!back.contains(DOWNWARDS), "{back}");
}

#[test]
fn an_order_and_a_search_survive_each_other() {
    let order = Order { sort: Sort::Created, reversed: true };
    let page = listing("work", &[], &Asked { typed: "tag:q3 budget", ..Asked::nothing() }, order, "in sync", None);
    assert!(page.contains("href=\"/nb/work?q=tag%3Aq3%20budget&amp;sort=title\""), "{page}");
    assert!(page.contains("<input type=\"hidden\" name=\"sort\" value=\"created\">"), "{page}");
    assert!(page.contains("<input type=\"hidden\" name=\"r\" value=\"1\">"), "{page}");
}

#[test]
fn a_listing_ordered_by_created_prints_created() {
    let file = NoteFile {
        id: "k3f9".into(),
        slug: "budget-review".into(),
        note: Note {
            title: "Budget review".into(),
            tags: vec![],
            created: Some("2019-03-14T16:21:00+08:00".into()),
            updated: Some("2026-08-12T08:03:00Z".into()),
            pinned: None,
            extra: vec![],
            body: String::new(),
        },
    };
    assert_eq!(Row::of(&file, Sort::Created).stamp.as_deref(), Some("2019-03-14T16:21:00+08:00"));
    for sort in [Sort::Slug, Sort::Updated, Sort::Title] {
        assert_eq!(
            Row::of(&file, sort).stamp.as_deref(),
            Some("2026-08-12T08:03:00Z"),
            "{} stopped printing updated",
            sort.name()
        );
    }
}

#[test]
fn a_note_page_is_sent_without_an_order_over_its_empty_column() {
    let reading = Reading {
        id: "em0xvn4e".into(),
        slug: "budget-review".into(),
        title: "Budget review".into(),
        tags: vec![],
        created: None,
        updated: None,
        rendered: "<p>late</p>".into(),
        pinned: false,
    };
    let page = note("work", &reading, "in sync");
    assert!(page.contains("<form class=\"searchbar\""), "{page}");
    assert!(!page.contains("class=\"sortbar\""), "{page}");
    assert!(!page.contains("name=\"sort\""), "{page}");

    let column = listing_pane(
        "work",
        &[row("k3f9", "Budget review", true)],
        &Asked::nothing(),
        Order { sort: Sort::Title, reversed: false },
        "in sync",
    );
    assert!(column.contains("class=\"sortbar\""), "{column}");
    assert!(column.contains("name=\"sort\""), "{column}");
}

#[test]
fn a_filtered_listing_says_what_it_is_hiding() {
    let rows = (0..12).map(|n| row(&format!("k3f{n}"), "Budget review", false)).collect::<Vec<_>>();
    let page = listing("work", &rows, &Asked { typed: "tag:ghost", ..Asked::nothing() }, Order::default(), "in sync", None);
    assert!(page.contains("No notes match <span class=\"asked\">tag:ghost"), "{page}");
    assert!(page.contains("12 notes"), "{page}");
    assert!(page.contains("href=\"/nb/work\""), "{page}");
}

#[test]
fn an_excluded_row_rides_along_hidden_and_unmarked() {
    let rows = [row("k3f9", "Budget review", true), row("em0x", "Reading list", false)];
    let terms = ["budget".to_string()];
    let page = listing(
        "work",
        &rows,
        &Asked { typed: "budget", terms: &terms, ..Asked::nothing() },
        Order::default(),
        "in sync",
        None,
    );
    assert!(page.contains("<a class=\"row\" href=\"/nb/work/n/k3f9\""), "{page}");
    assert!(page.contains("<a class=\"row\" hidden href=\"/nb/work/n/em0x\""), "{page}");
    assert!(page.contains("<mark>Budget</mark>"), "{page}");
    assert!(page.contains(">Reading list</div>"), "{page}");
    assert!(page.contains(">1 of 2<"), "{page}");
}

#[test]
fn an_empty_notebook_says_what_to_do_instead_of_nothing() {
    let page = listing("work", &[], &Asked::nothing(), Order::default(), "in sync", None);
    assert!(page.contains("No notes yet"), "{page}");
    assert!(page.contains("noda add"), "{page}");
    assert!(!page.contains("No notes match"), "{page}");
}

#[test]
fn the_hint_is_written_by_the_page_and_hidden_by_it() {
    let page = listing("work", &[row("k3f9", "Budget review", true)], &Asked::nothing(), Order::default(), "in sync", None);
    assert!(page.contains("<p class=\"hint\" hidden>"), "{page}");
    assert!(page.contains("press ⏎ to search the text"), "{page}");
    assert!(page.contains("<script src=\"/a/listing."), "{page}");
}

#[test]
fn the_note_page_names_the_file() {
    let page = note(
        "work",
        &Reading {
            id: "em0xvn4e".into(),
            slug: "budget-review".into(),
            title: "Budget review".into(),
            tags: vec!["work".into()],
            created: Some("2026-08-12T08:03:00Z".into()),
            updated: Some("2026-08-15T16:59:00Z".into()),
            rendered: "late".into(),
            pinned: false,
        },
        "in sync",
    );
    assert!(page.contains(">em0xvn4e</span>"), "{page}");
    assert!(page.contains(">-budget-review</span>"), "{page}");
    assert!(page.contains(">.md</span>"), "{page}");
}

#[test]
fn a_row_without_tags_prints_no_separator() {
    let rows = [Row {
        id: "k3f9".into(),
        title: "Reading list".into(),
        tags: vec![],
        stamp: Some("2026-08-12T08:03:00Z".into()),
        shown: true,
        pinned: false,
    }];
    let page = listing("work", &rows, &Asked::nothing(), Order::default(), "in sync", None);
    assert!(!page.contains("·"), "{page}");
    assert!(page.contains("2026-08-12"), "{page}");
    for shown in page.split('>').skip(1).filter_map(|rest| rest.split_once('<')) {
        assert!(!shown.0.contains("08:03"), "a clock is on the page: {page}");
    }
}

#[test]
fn a_row_prints_the_columns_ls_dash_l_prints_in_that_order() {
    let page = listing("work", &[row("em0xvn4e", "Budget review", true)], &Asked::nothing(), Order::default(), "in sync", None);
    assert!(
        page.contains(
            "<div class=\"ident\"><span class=\"id\">em0xvn4e</span>\
             <span class=\"day\">2026-08-12</span></div>\
             <div class=\"title\">Budget review</div>"
        ),
        "{page}"
    );
    let under = page.split("<div class=\"under\">").nth(1).unwrap();
    assert!(
        under.starts_with(
            "<time class=\"when\" datetime=\"2026-08-12T08:03:00Z\">2026-08-12</time>\
             <span class=\"sep\">·</span><span class=\"tags\">work</span>"
        ),
        "{under}"
    );
}

#[test]
fn the_field_draws_the_grouping_it_arrived_at() {
    let grouping = [vec!["tag:work".to_string(), "tag:q3".to_string()], vec!["budget".to_string()]];
    let page = listing(
        "work",
        &[row("k3f9", "Budget review", true)],
        &Asked { typed: "tag:work OR tag:q3 budget", grouping: &grouping, ..Asked::nothing() },
        Order::default(),
        "in sync",
        None,
    );
    assert!(
        page.contains(
            "<div class=\"parse\">\
             <span class=\"g\"><b class=\"t\">tag:work</b><i>or</i><b class=\"t\">tag:q3</b></span>\
             <span class=\"and\">and</span>\
             <span class=\"g\"><b>budget</b></span></div>"
        ),
        "{page}"
    );
}

#[test]
fn a_line_that_is_not_a_query_yet_is_grouped_into_nothing() {
    let page = listing(
        "work",
        &[row("k3f9", "Budget review", true)],
        &Asked { typed: "budget OR", problem: Some("`OR` needs a term on both sides"), ..Asked::nothing() },
        Order::default(),
        "in sync",
        None,
    );
    assert!(page.contains("<div class=\"parse\" hidden></div>"), "{page}");
    assert!(page.contains("<p class=\"problem\">`OR` needs a term on both sides</p>"), "{page}");
}

#[test]
fn a_note_page_sends_the_search_field_with_nothing_asked_of_it() {
    let page = note(
        "work",
        &Reading {
            id: "em0xvn4e".into(),
            slug: "budget-review".into(),
            title: "Budget review".into(),
            tags: vec![],
            created: None,
            updated: None,
            rendered: String::new(),
            pinned: false,
        },
        "in sync",
    );
    assert!(page.contains("<div class=\"parse\" hidden></div>"), "{page}");
    assert!(page.contains("<span class=\"count\"></span>"), "{page}");
}

#[test]
fn a_grouping_cannot_write_markup_into_the_page() {
    let grouping = [vec!["<script>x</script>".to_string()]];
    let page = listing(
        "work",
        &[],
        &Asked { typed: "<script>x</script>", grouping: &grouping, ..Asked::nothing() },
        Order::default(),
        "in sync",
        None,
    );
    assert!(page.contains("&lt;script&gt;x&lt;/script&gt;"), "{page}");
    assert!(!page.contains("<script>x"), "{page}");
}

#[test]
fn every_page_names_the_viewport_and_links_the_sheet_that_holds_both_themes() {
    let page = listing("work", &[], &Asked::nothing(), Order::default(), "in sync", None);
    assert!(page.contains("width=device-width"), "{page}");
    assert!(page.contains("<link rel=\"stylesheet\" href=\"/a/style."), "{page}");
    let sheet = format!("{}{}", noda::web::theme::stylesheet(), stylesheet());
    assert!(sheet.contains("prefers-color-scheme:dark"), "{sheet}");
    assert!(sheet.contains("--tap:48px"), "{sheet}");
}

fn reading() -> Reading {
    Reading {
        id: "em0xvn4e".into(),
        slug: "budget-review".into(),
        title: "Budget review".into(),
        tags: vec![],
        created: None,
        updated: None,
        rendered: "late".into(),
        pinned: false,
    }
}

#[test]
fn a_fragment_is_a_piece_of_the_page_it_came_from() {
    let (title, pane) = note_pane("work", &reading())
        .split_once("</title>")
        .map(|(title, pane)| (format!("{title}</title>"), pane.to_string()))
        .expect("the reading fragment names the tab");
    let page = note("work", &reading(), "in sync");
    assert!(page.contains(&title), "{page}");
    assert!(page.contains(&pane), "{page}");

    let rows = [Row {
        id: "em0xvn4e".into(),
        title: "Budget review".into(),
        tags: vec!["work".into()],
        stamp: None,
        shown: true,
        pinned: false,
    }];
    let column = listing_pane("work", &rows, &Asked::nothing(), Order::default(), "in sync");
    assert!(listing("work", &rows, &Asked::nothing(), Order::default(), "in sync", None).contains(&column), "{column}");

    let subject = Subject { what: "Budget review".into(), at: "/nb/work/n/em0xvn4e".into(), mono: false };
    let answer = backlinks_rows("work", &subject, &rows);
    assert!(backlinks("work", &subject, &rows).contains(&answer), "{answer}");

    let news = standing_main("work", &still(), None);
    assert!(standing("work", &still(), None).contains(&news), "{news}");

    let both = listing_screen("work", &rows, &Asked::nothing(), Order::default(), "in sync", Some("<p>Read me</p>"));
    let (title, panes) = both
        .split_once("</title>")
        .map(|(title, panes)| (format!("{title}</title>"), panes.to_string()))
        .expect("the listing screen names the tab");
    let page = listing("work", &rows, &Asked::nothing(), Order::default(), "in sync", Some("<p>Read me</p>"));
    assert!(page.contains(&title), "{page}");
    assert!(page.contains(&panes), "{page}");
    assert!(panes.contains("class=\"pane index\""), "{panes}");
    assert!(panes.contains("class=\"pane read\""), "{panes}");
    assert!(panes.contains("Read me"), "{panes}");
}

#[test]
fn a_fragment_carries_none_of_the_page_around_it() {
    let fragment = note_pane("work", &reading());
    for absent in ["<!doctype", "<link rel=\"stylesheet\"", "<script", "class=\"pane index\"", "class=\"notebooks\""] {
        assert!(!fragment.contains(absent), "the fragment carries {absent}");
    }
    assert!(fragment.contains("class=\"pane read\""), "{fragment}");

    let page = note("work", &reading(), "in sync");
    assert!(fragment.len() < page.len(), "{fragment}");
    assert!(!page.contains("--tap:48px"), "the stylesheet is back inside the page");
    assert!(page.contains("<link rel=\"stylesheet\" href=\"/a/style."), "{page}");
}

#[test]
fn the_news_says_whether_to_come_back_the_way_the_page_does() {
    let running = Errand { doing: "Syncing", done: "Synced", said: None, failed: false, seconds: 3 };
    let news = standing_main("work", &still(), Some(&running));
    assert!(news.starts_with("<meta http-equiv=\"refresh\""), "{news}");
    assert!(
        standing("work", &still(), Some(&running)).contains("<meta http-equiv=\"refresh\""),
        "the whole page stopped asking to come back"
    );

    let quiet = standing_main("work", &still(), None);
    assert!(!quiet.contains("http-equiv"), "{quiet}");
    assert!(quiet.starts_with("<main>"), "{quiet}");
}

#[test]
fn the_status_screen_names_the_build_answering() {
    let expected = format!(
        "<div class=\"name\">Version</div>\
         <div class=\"under\"><span class=\"mono\">{}</span></div>",
        escape(noda::VERSION)
    );
    let page = standing("work", &still(), None);
    assert!(page.contains(&expected), "{page}");
    let news = standing_main("work", &still(), None);
    assert!(news.contains(&expected), "{news}");
}

fn still() -> Standing {
    Standing {
        branch: "main".into(),
        notes: 5,
        files: 0,
        uncommitted: 0,
        remote: Some("https://example.com/notes.git".into()),
        drift: "in sync".into(),
        problems: vec![],
    }
}

#[test]
fn the_note_page_sends_the_margin_note_empty_and_hidden() {
    let page = note("work", &reading(), "in sync");
    assert!(page.contains("<aside class=\"beside\" hidden>"), "{page}");
    assert!(page.contains("<div class=\"answer\"></div>"), "{page}");
    assert!(page.contains(">Backlinks</div>"), "{page}");
}

#[test]
fn the_margin_note_is_drawn_only_when_it_holds_something() {
    let sheet = stylesheet();
    assert!(sheet.contains(".beside{display:none}"), "{sheet}");
    assert!(
        sheet.contains(".read .beside:not([hidden]){display:block"),
        "the margin note can now out-order its own hidden attribute"
    );
}

#[test]
fn the_note_bar_carries_delete_and_marks_only_that() {
    let page = note("work", &reading(), "in sync");
    assert!(page.contains("/n/em0xvn4e/delete\" class=\"danger\""), "{page}");
    assert_eq!(page.matches("class=\"danger\"").count(), 1, "{page}");
    assert!(page.contains("<span>Delete</span>"), "{page}");
    assert!(!page.contains("perilous"), "{page}");
}

#[test]
fn the_delete_page_says_its_piece_from_outside_the_form() {
    let about = About::of("em0xvn4e", "budget-review", "Budget review");
    let page = deleting("work", &about);
    let said = page.find("class=\"said\"").expect("the page says nothing");
    let form = page.find("<form").expect("the page has no form");
    assert!(said < form, "the paragraph is back inside the form: {page}");
}

#[test]
fn the_wide_grid_asks_for_a_note_before_it_reserves_a_margin() {
    let sheet = stylesheet();
    assert!(sheet.contains("@media (min-width:1440px)"), "{sheet}");
    for rule in sheet.split('}') {
        if rule.contains("main.note") && rule.contains("grid-template-columns") {
            assert!(
                rule.contains("at-note.margined"),
                "the wide grid applies to a pane that may hold the README: {rule}"
            );
        }
    }
}

#[test]
fn both_routes_that_can_show_a_note_link_the_script_that_fills_its_margin() {
    let hook = Asset::Beside.href();
    assert!(note("work", &reading(), "in sync").contains(&hook), "note");
    assert!(listing("work", &[], &Asked::nothing(), Order::default(), "in sync", None).contains(&hook), "listing");
}

#[test]
fn the_screens_that_show_an_instant_link_the_script_that_converts_it() {
    let hook = Asset::Stamps.href();
    assert!(note("work", &reading(), "in sync").contains(&hook), "note");
    assert!(listing("work", &[], &Asked::nothing(), Order::default(), "in sync", None).contains(&hook), "listing");
    assert!(!tags("work", &[]).contains(&hook), "tags");
}

#[test]
fn a_due_date_is_not_an_instant_and_is_not_marked_as_one() {
    let page = todo(
        "work",
        &[Task {
            id: "em0xvn4e".into(),
            title: "Budget review".into(),
            text: "send the revised contract".into(),
            due: Some("2026-08-10".into()),
            overdue: false,
        }],
    );
    assert!(page.contains("2026-08-10"), "{page}");
    assert!(!page.contains("<time"), "{page}");
    assert!(!page.contains(&Asset::Stamps.href()), "{page}");
}

fn book(name: &str) -> Book {
    Book {
        name: name.to_string(),
        notes: 10,
        files: 2,
        uncommitted: 1,
        drift: Some("2 to push".to_string()),
        active: false,
        last: "2026-08-18".to_string(),
    }
}

#[test]
fn a_notebook_row_says_what_status_says_and_leads_two_ways() {
    let page = notebooks(&[book("work")]);
    assert!(page.contains("href=\"/nb/work\""), "{page}");
    assert!(page.contains("href=\"/nb/work/status\""), "{page}");
    for fact in ["10 notes", "2 files", "1 uncommitted", "2026-08-18", "2 to push"] {
        assert!(page.contains(fact), "{fact} is missing:\n{page}");
    }
}

#[test]
fn a_notebook_row_leaves_out_what_it_holds_none_of() {
    let page = notebooks(&[Book { files: 0, uncommitted: 0, ..book("work") }]);
    assert!(page.contains("10 notes"), "{page}");
    assert!(!page.contains("0 files"), "{page}");
    assert!(!page.contains("uncommitted"), "{page}");
}

#[test]
fn a_notebook_with_no_remote_keeps_the_words_and_loses_the_link() {
    let page = notebooks(&[Book { drift: None, ..book("work") }]);
    assert!(page.contains("no remote"), "{page}");
    assert!(!page.contains("/status"), "{page}");
}

#[test]
fn the_active_notebook_is_marked_and_the_others_are_not() {
    let page = notebooks(&[book("journal"), Book { active: true, ..book("work") }]);
    assert_eq!(page.matches("class=\"mark\"").count(), 1, "{page}");
    assert!(page.contains("<span class=\"sr\">Active"), "{page}");
}

#[test]
fn the_front_page_is_the_one_screen_with_neither_rail_nor_bar() {
    let page = notebooks(&[book("work")]);
    assert!(page.contains("class=\"app root\""), "{page}");
    assert!(!page.contains("<nav class=\"actionbar\""), "{page}");
    assert!(!page.contains("class=\"fab\""), "{page}");
}

#[test]
fn the_corner_counts_the_notebooks_and_leaves_the_rest_to_the_stylesheet() {
    let page = notebooks(&[book("journal"), book("work")]);
    assert!(page.contains("2 notebooks<span class=\"more\"> · 20 notes</span>"), "{page}");
}

// The size column, against the standard formatter it follows.

#[test]
fn a_size_is_said_in_the_unit_a_file_manager_would_pick() {
    assert_eq!(size(0), "0 B");
    assert_eq!(size(1023), "1023 B");
    assert_eq!(size(1024), "1.0 KB");
    assert_eq!(size(1536), "1.5 KB");
    assert_eq!(size(1_048_576), "1.0 MB");
    assert_eq!(size(5 * 1_073_741_824), "5.0 GB");
}

#[test]
fn a_size_rounds_as_the_formatter_rounds() {
    let mut bytes: u64 = 1024;
    while bytes < 1 << 40 {
        for b in [bytes, bytes + 1, bytes + 51, bytes * 9 / 4, bytes + bytes / 20] {
            let value = b as f64;
            let want = match b {
                0..1024 => format!("{b} B"),
                1024..1_048_576 => format!("{:.1} KB", value / 1024.0),
                1_048_576..1_073_741_824 => format!("{:.1} MB", value / 1_048_576.0),
                _ => format!("{:.1} GB", value / 1_073_741_824.0),
            };
            assert_eq!(size(b), want, "{b} bytes");
        }
        bytes = bytes * 3 / 2 + 7;
    }
    for b in [u64::MAX, u64::MAX - 1, (1 << 53) + 1, (1 << 60) + 3, 2304, 2560, 3328] {
        let value = b as f64;
        let want = match b {
            0..1024 => format!("{b} B"),
            1024..1_048_576 => format!("{:.1} KB", value / 1024.0),
            1_048_576..1_073_741_824 => format!("{:.1} MB", value / 1_048_576.0),
            _ => format!("{:.1} GB", value / 1_073_741_824.0),
        };
        assert_eq!(size(b), want, "{b} bytes");
    }
}

#[test]
fn a_new_note_form_keeps_what_was_typed_and_says_why_it_was_refused() {
    let draft = Draft { title: "Q3 <plan>".to_string(), tags: "work q3".to_string(), body: "a & b".to_string() };
    let page = composing("work", &draft, Some("a title must fit on one line"));
    assert!(page.contains("action=\"/nb/work/new\""), "{page}");
    assert!(page.contains("name=\"title\" value=\"Q3 &lt;plan&gt;\""), "{page}");
    assert!(page.contains("name=\"tags\" value=\"work q3\""), "{page}");
    assert!(page.contains(">a &amp; b</textarea>"), "{page}");
    assert!(page.contains("<p class=\"said bad\">a title must fit on one line</p>"), "{page}");
    let fresh = composing("work", &Draft::default(), None);
    assert!(!fresh.contains("said bad"), "{fresh}");
}

#[test]
fn the_rename_form_starts_from_the_title_and_posts_to_the_note() {
    let about = About::of("k3f9m2p1", "budget", "Budget");
    let page = renaming("work", &about, "Budget \"2025\"", None);
    assert!(page.contains("action=\"/nb/work/n/k3f9m2p1/rename\""), "{page}");
    assert!(page.contains("value=\"Budget &quot;2025&quot;\""), "{page}");
    assert!(page.contains("The id never moves"), "{page}");
}

#[test]
fn the_tags_form_sends_every_tag_it_showed_and_ticks_each() {
    let about = About::of("k3f9m2p1", "budget", "Budget");
    let page = tagging("work", &about, &["work".to_string(), "24.04 Dark patterns".to_string()], None);
    assert!(page.contains("action=\"/nb/work/n/k3f9m2p1/tags\""), "{page}");
    assert!(page.contains("<input type=\"hidden\" name=\"saw\" value=\"work\">"), "{page}");
    assert!(page.contains("name=\"keep\" value=\"24.04 Dark patterns\" checked"), "{page}");
    assert!(page.contains("id=\"t1\""), "{page}");
    let bare = tagging("work", &about, &[], None);
    assert!(bare.contains("This note has no tags yet."), "{bare}");
}

#[test]
fn only_a_date_in_digits_is_cut_to_its_day() {
    assert_eq!(day("2019-03-14T16:21:00+08:00"), "2019-03-14");
    assert_eq!(day("2026-08-15T08:59:03Z"), "2026-08-15");
    assert_eq!(day("abcd-ef-ghij"), "abcd-ef-ghij");
    assert_eq!(day("2026-0x-15 and on"), "2026-0x-15 and on");
    assert_eq!(day("last tuesday"), "last tuesday");
    assert_eq!(day(""), "");
}
