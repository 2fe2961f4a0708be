use noda::web::page::stylesheet;
use noda::web::script::{BESIDE, LISTING, PANES, STAMPS, STANDING, WATCHING};
use noda::web::{Part, PART};

#[test]
fn no_script_can_end_its_own_element() {
    for source in [LISTING, STANDING, PANES, BESIDE, STAMPS, WATCHING] {
        assert!(!source.to_lowercase().contains("</script"), "{source}");
    }
}

#[test]
fn the_watch_looks_for_what_the_edit_form_writes() {
    for hook in ["form.write", "input[name=\"fingerprint\"]", "/watch"] {
        assert!(WATCHING.contains(hook), "{hook} is gone:\n{WATCHING}");
    }
}

#[test]
fn the_stamps_look_for_what_the_pages_write() {
    for hook in ["time[datetime]", "data-clock", "a.row", "time.when", ".ident .day", "noda:rows", "noda:read"] {
        assert!(STAMPS.contains(hook), "the stamps stopped looking for {hook}");
    }
    assert!(STAMPS.contains("Intl.DateTimeFormat(\"en\""), "{STAMPS}");
}

#[test]
fn the_filter_looks_for_what_the_listing_writes() {
    for hook in [
        "form.searchbar",
        "main.rows",
        "input[name=q]",
        "a.row",
        ".title",
        ".tags",
        ".topbar .count",
        ".hint",
        ".parse",
        ".problem",
        ".empty",
        ".asked",
    ] {
        assert!(LISTING.contains(hook), "the filter stopped looking for {hook}");
    }
}

#[test]
fn both_halves_of_the_grouping_draw_the_same_pill() {
    for hook in ["\".parse\"", "\"and\"", "\"g\"", "\"t\"", "\"i\""] {
        assert!(LISTING.contains(hook), "the grouping stopped writing {hook}");
    }
    let sheet = stylesheet();
    for rule in [".parse .g", ".parse .g b.t", ".parse .g i", ".parse .and"] {
        assert!(sheet.contains(rule), "the stylesheet stopped drawing {rule}");
    }
}

#[test]
fn the_panes_look_for_what_the_pages_write() {
    for hook in [
        ".app.split",
        ".index form.searchbar",
        ".index main.rows",
        ".index .topbar .count",
        ".index form.searchbar .sortbar a",
        ".pane.read",
        "a.row",
        "indexed",
        "at-note",
        "at-list",
        "here",
    ] {
        assert!(PANES.contains(hook), "the panes stopped looking for {hook}");
    }
    assert!(PANES.contains("new FormData(form)"), "{PANES}");
    let sheet = stylesheet();
    for rule in [".sortbar", ".sortbar a[aria-current] .pill"] {
        assert!(sheet.contains(rule), "the stylesheet stopped drawing {rule}");
    }
}

#[test]
fn the_script_and_the_stylesheet_split_at_the_same_width() {
    assert!(PANES.contains("(min-width:1024px)"), "{PANES}");
    assert!(stylesheet().contains("(min-width:1024px)"), "the stylesheet no longer splits at 1024px");
}

#[test]
fn the_poll_steers_by_the_meta_the_scriptless_page_steers_by() {
    assert!(STANDING.contains(r#"meta[http-equiv="refresh"]"#), "{STANDING}");
    assert!(STANDING.contains("querySelector(\"main\")"), "{STANDING}");
}

#[test]
fn the_margin_note_looks_for_what_the_pages_write() {
    for hook in [
        ".app.split",
        ".pane.read .beside",
        ".answer",
        "main.rows a.row",
        ".title",
        "at-note",
        "margined",
        "\"mini\"",
        "\"/backlinks\"",
    ] {
        assert!(BESIDE.contains(hook), "the margin note stopped looking for {hook}");
    }
}

#[test]
fn the_stylesheet_draws_what_the_margin_note_builds() {
    let sheet = stylesheet();
    for rule in [".beside .mini", ".beside .mini span", ".beside .none", ".beside .said"] {
        assert!(sheet.contains(rule), "the stylesheet stopped drawing {rule}");
    }
    for made in ["\"mini\"", "\"none\"", "\"said working\""] {
        assert!(BESIDE.contains(made), "the margin note stopped building {made}");
    }
}

#[test]
fn the_margin_note_and_the_stylesheet_widen_at_the_same_number() {
    assert!(BESIDE.contains("(min-width:1440px)"), "{BESIDE}");
    assert!(
        stylesheet().contains("(min-width:1440px)"),
        "the stylesheet no longer puts the margin note beside the note"
    );
}

#[test]
fn a_pane_swap_tells_the_margin_note_the_note_changed() {
    assert!(PANES.contains("\"noda:read\""), "{PANES}");
    assert!(BESIDE.contains("\"noda:read\""), "{BESIDE}");
}

#[test]
fn every_fetch_asks_for_a_part_the_server_can_send() {
    for (script, what, part) in [
        (PANES, "the pane swap", Part::Read),
        (PANES, "the index column", Part::Index),
        (PANES, "going back to the listing", Part::Screen),
        (BESIDE, "the margin note", Part::Rows),
        (STANDING, "the poll", Part::News),
    ] {
        let asked = format!("\"{PART}\": \"{}\"", part.name());
        assert!(script.contains(&asked), "{what} stopped asking for {asked}");
    }
}

#[test]
fn a_whole_page_would_still_answer_every_one_of_them() {
    for (script, looked_for) in [
        (PANES, "sent.querySelector(\".pane.read\")"),
        (PANES, "sent.querySelector(\"main.rows\")"),
        (BESIDE, "sent.querySelectorAll(\"main.rows a.row\")"),
        (STANDING, "fresh.querySelector(\"main\")"),
    ] {
        assert!(
            script.contains(looked_for),
            "an answer is being taken apart by position rather than by {looked_for}"
        );
    }
}

#[test]
fn replacing_the_rows_tells_the_filter_to_read_them_again() {
    assert!(PANES.contains("\"noda:rows\""), "{PANES}");
    assert!(LISTING.contains("\"noda:rows\""), "{LISTING}");
}

#[test]
fn going_back_asks_the_server_rather_than_the_page() {
    assert!(PANES.contains("popstate"), "{PANES}");
    assert!(
        PANES.contains("if (!wide.matches) return location.reload();"),
        "the narrow screen stopped falling back to a reload"
    );
}

#[test]
fn a_search_is_answered_in_place_only_on_the_listing() {
    assert!(PANES.contains("submit"), "{PANES}");
    assert!(
        PANES.contains("app.classList.contains(\"at-list\")"),
        "the search stopped checking which screen it is on"
    );
    assert!(
        PANES.contains("location.replace(where)"),
        "nothing falls back to the address the form would have gone to"
    );
}

#[test]
fn a_press_pushes_its_address_before_it_asks_for_the_answer() {
    for (what, from, push, ask) in [
        ("the swap", "const swap = async", "history.pushState", "fetch(href"),
        ("the relisting", "const relist = async", "history.pushState", "fetch(where"),
    ] {
        let at = PANES.find(from).unwrap_or_else(|| panic!("{what} is not in this script any more"));
        let rest = &PANES[at..];
        let pushed = rest.find(push).unwrap_or_else(|| panic!("{what} stopped pushing its address"));
        let asked = rest.find(ask).unwrap_or_else(|| panic!("{what} stopped asking for its answer"));
        assert!(pushed < asked, "{what} asks before it pushes");
    }
    assert!(!PANES.contains("location.assign("), "{PANES}");
    assert_eq!(PANES.matches("relist(").count(), 2, "{PANES}");
}
