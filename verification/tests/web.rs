use noda::web::stop::{finishing, listening, not_waiting, unfinished, waiting};
use noda::query::split;
use noda::sort::Sort;
use noda::web::{encoded, order_of, tag_changes};
use noda::web::page::Order;
use noda::web::reply::{aimed, back_to_note, missing_notebook, no_such_note};
use noda::web::merge::{saving, Saving, Since};
use noda::web::page::About;
use noda::web::reply::{admitted, answered, asset, attachment, health, Answer, Body, Held, Ran, Reply};
use noda::web::watch::{Registry, BEHIND, EVERY_MILLIS};
use noda::web::merge::{merge, outcome, Merged};
use noda::web::asset::{every, find, fingerprint, Asset};
use noda::web::guard::Guard;
use noda::web::parameter;
use noda::web::theme::{dark, fill, light, stylesheet};
use noda::palette;
use noda::web::work::{work, Errand, Ledger, Outcome};

#[test]
fn what_a_page_links_is_what_the_route_answers() {
    for asset in every() {
        let href = asset.href();
        let file = href.strip_prefix("/a/").expect("assets live under /a/");
        let found = find(file).expect("the route answers what the page links");
        assert_eq!(found.body, asset.body());
        assert_eq!(found.kind, asset.kind());
    }
}

#[test]
fn a_changed_asset_would_be_a_changed_address() {
    let sheet = fingerprint(&Asset::Style.body());
    let changed = fingerprint(&format!("{}{}", Asset::Style.body(), "body{color:red}"));
    assert_ne!(sheet, changed);
    assert_eq!(sheet.len(), 12);
}

#[test]
fn no_two_assets_answer_at_one_address() {
    let mut seen = std::collections::BTreeSet::new();
    for asset in every() {
        assert!(seen.insert(asset.href()), "{} is served twice", asset.href());
    }
}

#[test]
fn an_address_this_build_did_not_write_is_not_answered() {
    assert!(find("style.000000000000.css").is_none());
    assert!(find("style.css").is_none());
    assert!(find("../../etc/passwd").is_none());
}

#[test]
fn a_stylesheet_is_linked_and_a_script_is_deferred() {
    assert!(Asset::Style.tag().starts_with("<link rel=\"stylesheet\""));
    let script = Asset::Panes.tag();
    assert!(script.starts_with("<script src=\"/a/panes."), "{script}");
    assert!(script.ends_with(" defer></script>"), "{script}");
}

fn plain() -> Guard {
    Guard::new(&[])
}

#[test]
fn an_address_is_admitted_without_being_asked_for() {
    for host in ["127.0.0.1:8080", "localhost:8080", "localhost", "192.168.1.4:8080", "[::1]:8080"] {
        assert!(plain().admits(Some(host), None).is_ok(), "{host} should have been admitted");
    }
}

#[test]
fn a_name_nobody_asked_for_is_refused_even_when_the_origin_agrees() {
    let refusal = plain()
        .admits(Some("evil.example"), Some("http://evil.example"))
        .expect_err("a name that was not asked for");
    assert!(refusal.0.contains("--allow-host evil.example"), "{}", refusal.0);
}

#[test]
fn a_name_that_was_asked_for_is_admitted() {
    let guard = Guard::new(&["noda.tail1234.ts.net".to_string()]);
    assert!(guard.admits(Some("noda.tail1234.ts.net"), Some("https://noda.tail1234.ts.net")).is_ok());
}

#[test]
fn another_site_cannot_reach_in() {
    let refusal = plain()
        .admits(Some("127.0.0.1:8080"), Some("https://elsewhere.example"))
        .expect_err("a cross-site request");
    assert!(refusal.0.contains("elsewhere.example"), "{}", refusal.0);
}

#[test]
fn a_different_port_is_a_different_site() {
    assert!(plain().admits(Some("127.0.0.1:8080"), Some("http://127.0.0.1:8081")).is_err());
}

#[test]
fn an_ordinary_navigation_carries_no_origin_and_is_fine() {
    assert!(plain().admits(Some("127.0.0.1:8080"), None).is_ok());
}

#[test]
fn an_opaque_origin_is_named_rather_than_lumped_in() {
    let refusal = plain().admits(Some("127.0.0.1:8080"), Some("null")).expect_err("an opaque origin");
    assert!(refusal.0.contains("opaque"), "{}", refusal.0);
}

#[test]
fn a_request_with_no_host_is_refused() {
    assert!(plain().admits(None, None).is_err());
}

#[test]
fn a_query_string_gives_up_its_parameter() {
    assert_eq!(parameter(Some("q=budget"), "q"), "budget");
    assert_eq!(parameter(Some("a=1&q=budget&b=2"), "q"), "budget");
    assert_eq!(parameter(Some("a=1"), "q"), "");
    assert_eq!(parameter(None, "q"), "");
    assert_eq!(parameter(Some("q="), "q"), "");
}

#[test]
fn a_quoted_tag_survives_the_trip() {
    assert_eq!(parameter(Some("q=tag%3A%2224.04+Dark+patterns%22"), "q"), "tag:\"24.04 Dark patterns\"");
}

#[test]
fn a_multi_byte_character_arrives_whole() {
    assert_eq!(parameter(Some("q=%E7%AD%86%E8%A8%98"), "q"), "筆記");
}

#[test]
fn a_stray_percent_is_left_as_typed() {
    assert_eq!(parameter(Some("q=100%+of+it"), "q"), "100% of it");
    assert_eq!(parameter(Some("q=%zz"), "q"), "%zz");
}

#[test]
fn both_themes_reach_the_stylesheet_and_neither_is_the_other() {
    let css = stylesheet();
    let light = light();
    let dark = dark();
    assert!(css.contains("prefers-color-scheme:dark"), "{css}");
    assert!(css.contains(light.yellow), "{css}");
    assert!(css.contains(dark.yellow), "{css}");
    assert!(css.find(light.background) < css.find(dark.background), "{css}");
}

#[test]
fn a_word_in_the_url_names_a_command() {
    assert_eq!(Errand::of("sync"), Some(Errand::Sync));
    assert_eq!(Errand::of("pull"), Some(Errand::Pull));
    assert_eq!(Errand::of("push"), Some(Errand::Push));
    assert_eq!(Errand::of("fetch"), None);
    assert_eq!(Errand::of(""), None);
}

#[test]
fn what_an_errand_said_is_how_it_went() {
    assert_eq!(work(Ok("pull: already up to date".to_string())), Outcome::Went("pull: already up to date".to_string()));
    assert_eq!(work(Err("no remote".to_string())), Outcome::Failed("no remote".to_string()));
}

const BASE: &str = "one\ntwo\nthree\nfour\nfive\nsix\nseven\neight\nnine\nten\n";

#[test]
fn changes_in_different_parts_come_back_as_one_note() {
    let mine = BASE.replace("one\n", "ONE\n");
    let theirs = BASE.replace("ten\n", "TEN\n");
    let Merged::Clean(text) = merge(BASE, &mine, &theirs).expect("merge") else {
        panic!("two ends of a note are not a conflict");
    };
    assert!(text.contains("ONE"), "{text}");
    assert!(text.contains("TEN"), "{text}");
    assert!(!text.contains("<<<"), "{text}");
}

#[test]
fn a_change_against_an_untouched_note_is_that_change() {
    let mine = BASE.replace("five\n", "FIVE\n");
    let Merged::Clean(text) = merge(BASE, &mine, BASE).expect("merge") else {
        panic!("only one side changed anything");
    };
    assert_eq!(text, mine);
}

#[test]
fn changes_to_one_line_are_marked_and_named() {
    let mine = BASE.replace("five\n", "mine\n");
    let theirs = BASE.replace("five\n", "theirs\n");
    let Merged::Conflicted(text) = merge(BASE, &mine, &theirs).expect("merge") else {
        panic!("one line written twice is a conflict");
    };
    assert!(text.contains("<<<<<<< what you wrote"), "{text}");
    assert!(text.contains(">>>>>>> saved since"), "{text}");
    assert!(text.contains("mine"), "{text}");
    assert!(text.contains("theirs"), "{text}");
}

#[test]
fn a_merge_is_shown_as_text_clean_or_not() {
    let bytes = b"a\xffb".to_vec();
    assert_eq!(outcome(&bytes, true), Merged::Clean("a\u{fffd}b".to_string()));
    assert_eq!(outcome(&bytes, false), Merged::Conflicted("a\u{fffd}b".to_string()));
}

#[test]
fn a_second_reader_does_not_reset_the_first_ones_fingerprint() {
    let mut watch = Registry::new();
    watch.subscribe("work", "k3f9m2p1", "k3f9m2p1-plan.md", "aaaa", 1);
    watch.subscribe("work", "k3f9m2p1", "k3f9m2p1-plan.md", "bbbb", 2);
    assert_eq!(watch.notes.len(), 1);
    assert_eq!(watch.notes[0].seen, "aaaa");
    assert_eq!(watch.notes[0].tell, vec![1, 2]);
}

#[test]
fn readers_are_told_only_when_the_file_changed() {
    let mut watch = Registry::new();
    watch.subscribe("work", "k3f9m2p1", "k3f9m2p1-plan.md", "aaaa", 1);
    assert!(watch.observe("work", "k3f9m2p1", "aaaa").is_empty());
    assert_eq!(watch.observe("work", "k3f9m2p1", "bbbb"), vec![1]);
    assert!(watch.observe("work", "k3f9m2p1", "bbbb").is_empty());
    assert!(watch.observe("work", "h9nrrr5n", "cccc").is_empty());
}

#[test]
fn a_closed_tab_is_let_go_and_a_note_nobody_reads_with_it() {
    let mut watch = Registry::new();
    watch.subscribe("work", "k3f9m2p1", "a.md", "aaaa", 1);
    watch.subscribe("work", "k3f9m2p1", "a.md", "aaaa", 2);
    watch.subscribe("work", "h9nrrr5n", "b.md", "bbbb", 3);
    watch.prune(&vec![2, 3]);
    assert_eq!(watch.notes.len(), 1);
    assert_eq!(watch.notes[0].id, "k3f9m2p1");
    assert_eq!(watch.notes[0].tell, vec![1]);
    let wanted = watch.wanted();
    assert_eq!(wanted, vec![("work".to_string(), "k3f9m2p1".to_string(), "a.md".to_string())]);
}

#[test]
fn a_send_that_found_a_reader_gone_lets_go_of_it_alone() {
    let mut watch = Registry::new();
    watch.subscribe("work", "k3f9m2p1", "a.md", "aaaa", 1);
    watch.subscribe("work", "k3f9m2p1", "a.md", "aaaa", 2);
    watch.let_go("work", "k3f9m2p1", &vec![1]);
    assert_eq!(watch.notes[0].tell, vec![2]);
    watch.let_go("work", "k3f9m2p1", &vec![2]);
    assert_eq!(watch.notes.len(), 1);
    assert!(watch.notes[0].tell.is_empty());
}

#[test]
fn stopping_ends_every_stream() {
    let mut watch = Registry::new();
    watch.subscribe("work", "k3f9m2p1", "a.md", "aaaa", 1);
    watch.stop();
    assert!(watch.stopping);
    assert!(watch.notes.is_empty());
    assert_eq!(EVERY_MILLIS, 2000);
    assert_eq!(BEHIND, 8);
}

fn header_of<'a>(reply: &'a Reply, name: &str) -> Option<&'a str> {
    reply.headers.iter().find(|(n, _)| *n == name).map(|(_, v)| v.as_str())
}

#[test]
fn every_page_varies_on_the_fragment_it_may_be() {
    let (reply, said) = answered(Ran::Done(Answer::Page("<p>x</p>".to_string())));
    assert_eq!(reply.status, 200);
    assert_eq!(header_of(&reply, "vary"), Some("x-noda-fragment"));
    assert_eq!(header_of(&reply, "referrer-policy"), Some("same-origin"));
    assert_eq!(header_of(&reply, "cache-control"), Some("no-cache"));
    assert!(said.is_none());
}

#[test]
fn a_file_is_handed_over_named_and_sandboxed() {
    let held = Held { bytes: vec![1, 2, 3], kind: "application/pdf", inline: false, name: "réunion.pdf".to_string() };
    let reply = attachment(held);
    assert_eq!(
        header_of(&reply, "content-disposition"),
        Some("attachment; filename*=UTF-8''r%C3%A9union.pdf")
    );
    assert_eq!(header_of(&reply, "content-security-policy"), Some("default-src 'none'; sandbox"));
    assert_eq!(header_of(&reply, "x-content-type-options"), Some("nosniff"));
    assert!(matches!(reply.body, Body::Bytes(ref b) if b == &vec![1, 2, 3]));
}

#[test]
fn an_error_is_a_page_that_says_so_and_a_line_in_the_log() {
    let (reply, said) = answered(Ran::Failed("could not open the notebook".to_string()));
    assert_eq!(reply.status, 500);
    let Body::Text(page) = &reply.body else { panic!("a page") };
    assert!(page.contains("Something went wrong"), "{page}");
    assert!(page.contains("could not open the notebook"), "{page}");
    assert_eq!(said.expect("logged").event, "http.failed");
    let (lost, said) = answered(Ran::Lost);
    assert_eq!(lost.status, 500);
    assert_eq!(said.expect("logged").event, "http.lost");
}

#[test]
fn a_redirect_says_only_where() {
    let (reply, _) = answered(Ran::Done(Answer::Elsewhere("/nb/work".to_string())));
    assert_eq!(reply.status, 303);
    assert_eq!(reply.headers, vec![("location", "/nb/work".to_string())]);
}

#[test]
fn an_asset_is_kept_for_a_year_and_a_miss_is_missing() {
    let file = every()[0].href().strip_prefix("/a/").expect("under /a/").to_string();
    let reply = asset(&file);
    assert_eq!(reply.status, 200);
    assert_eq!(header_of(&reply, "cache-control"), Some("public, max-age=31536000, immutable"));
    let miss = asset("style.0000000.css");
    assert_eq!(miss.status, 404);
    assert_eq!(header_of(&miss, "cache-control"), Some("no-store"));
}

#[test]
fn a_probe_is_answered_without_a_notebook() {
    let (ok, said) = health(true);
    assert_eq!(ok.status, 200);
    assert!(said.is_none());
    let (down, said) = health(false);
    assert_eq!(down.status, 503);
    assert_eq!(said.expect("logged").event, "http.lost");
}

#[test]
fn a_refused_request_is_a_page_and_a_warning() {
    let guard = Guard::new(&[]);
    assert!(admitted(&guard, Some("localhost:8080"), None).is_none());
    let (reply, said) = admitted(&guard, Some("evil.example"), None).expect("refused");
    assert_eq!(reply.status, 403);
    assert_eq!(said.event, "http.refused");
    assert!(said.fields.iter().any(|(n, v)| n == "host" && v == "evil.example"));
}

#[test]
fn an_edit_of_an_unchanged_note_is_written_as_it_stands() {
    let about = About::of("k3f9m2p1", "plan", "Plan");
    let r = saving("work", &about, "mine\n".to_string(), "aaaa", "aaaa", None).expect("saved");
    assert_eq!(r, Saving::Write("mine\n".to_string()));
}

#[test]
fn an_edit_begun_before_a_change_is_merged_with_it() {
    let about = About::of("k3f9m2p1", "plan", "Plan");
    let mine = BASE.replace("one\n", "ONE\n");
    let theirs = BASE.replace("ten\n", "TEN\n");
    let since = Since { theirs: theirs.clone(), base: Some(BASE.to_string()) };
    let Saving::Write(text) = saving("work", &about, mine, "aaaa", "bbbb", Some(since)).expect("merged") else {
        panic!("two ends of a note are not a conflict");
    };
    assert!(text.contains("ONE") && text.contains("TEN"), "{text}");

    let mine = BASE.replace("five\n", "mine\n");
    let theirs = BASE.replace("five\n", "theirs\n");
    let since = Since { theirs, base: Some(BASE.to_string()) };
    let Saving::Show(page) = saving("work", &about, mine, "aaaa", "bbbb", Some(since)).expect("merged") else {
        panic!("one line written twice is handed back");
    };
    assert!(page.contains("Someone else saved while you were writing."), "{page}");
    assert!(page.contains("what you wrote"), "{page}");
}

#[test]
fn an_edit_with_nothing_to_merge_from_writes_nothing_and_shows_both() {
    let about = About::of("k3f9m2p1", "plan", "Plan");
    let since = Since { theirs: "theirs\n".to_string(), base: None };
    let Saving::Show(page) = saving("work", &about, "mine\n".to_string(), "aaaa", "bbbb", Some(since)).expect("shown") else {
        panic!("nothing may be written");
    };
    assert!(page.contains("theirs"), "{page}");
    assert!(page.contains("mine"), "{page}");
    assert!(page.contains("Nothing has been overwritten."), "{page}");
}

#[test]
fn a_search_line_splits_at_spaces_and_keeps_quotes_together() {
    assert_eq!(split("budget  tag:ops"), vec!["budget", "tag:ops"]);
    assert_eq!(split("tag:\"24.04 Dark patterns\" x"), vec!["tag:24.04 Dark patterns", "x"]);
    assert_eq!(split("'half typed"), vec!["half typed"]);
    assert_eq!(split("\"\" a"), vec!["a"]);
    assert!(split("   ").is_empty());
}

#[test]
fn an_untick_removes_only_what_the_page_offered() {
    let form = "saw=ops&saw=home&keep=ops&add=new+%22two+words%22";
    assert_eq!(tag_changes(form), vec!["-home", "+new", "+two words"]);
    assert!(tag_changes("saw=ops&keep=ops").is_empty());
}

#[test]
fn the_listing_order_is_read_from_the_address() {
    assert_eq!(order_of(Some("q=x&sort=created&r=on")), Order { sort: Sort::Created, reversed: true });
    assert_eq!(order_of(Some("sort=sideways")), Order { sort: Sort::Slug, reversed: false });
    assert_eq!(order_of(None), Order::default());
    assert_eq!(Sort::named("title"), Some(Sort::Title));
    assert_eq!(Sort::named("Title"), None);
}

#[test]
fn a_note_reached_by_another_key_is_sent_to_its_id() {
    assert!(aimed("work", "k3f9m2p1", "k3f9m2p1", "/edit").is_none());
    let Some(Answer::Elsewhere(to)) = aimed("work", "the-plan", "k3f9m2p1", "/edit") else {
        panic!("a redirect");
    };
    assert_eq!(to, "/nb/work/n/k3f9m2p1/edit");
    let Answer::Elsewhere(back) = back_to_note("work", "k3f9m2p1") else { panic!("a redirect") };
    assert_eq!(back, "/nb/work/n/k3f9m2p1");
    let Answer::Missing(heading, detail) = missing_notebook("work") else { panic!("missing") };
    assert_eq!(heading, "No such notebook");
    assert_eq!(detail, "There is no notebook called work on this machine.");
    let Answer::Missing(heading, detail) = no_such_note("work", "zz") else { panic!("missing") };
    assert_eq!(heading, "No such note");
    assert_eq!(detail, "Nothing in work is called zz.");
}

#[test]
fn one_notebook_runs_one_errand() {
    let mut errands = Ledger::new();
    assert!(errands.begin("work", Errand::Sync));
    assert!(!errands.begin("work", Errand::Push));
    assert!(errands.begin("home", Errand::Pull));

    errands.finish("work", Outcome::Went("pull: already up to date".into()));
    assert!(errands.begin("work", Errand::Push));
}

#[test]
fn what_it_did_stays_until_the_next_one() {
    let mut errands = Ledger::new();
    assert!(errands.report("work").is_none());

    errands.begin("work", Errand::Sync);
    let report = errands.report("work").expect("it was begun");
    assert_eq!(report.errand, Errand::Sync);
    assert!(report.running());

    errands.finish("work", Outcome::Failed("no remote".into()));
    let report = errands.report("work").expect("it ran");
    assert!(!report.running());
    assert_eq!(report.outcome, Some(Outcome::Failed("no remote".into())));

    errands.begin("work", Errand::Push);
    let report = errands.report("work").expect("it was begun");
    assert_eq!(report.errand, Errand::Push);
    assert!(report.running());
}

#[test]
fn a_second_signal_stops_the_waiting() {
    let mut errands = Ledger::new();
    assert!(errands.begin("work", Errand::Push));
    assert!(errands.settled().is_none(), "an errand is running");

    errands.abandon();
    assert_eq!(errands.settled(), Some(vec![("work".to_string(), Errand::Push)]));
}

#[test]
fn nothing_running_is_nothing_to_wait_for() {
    let mut errands = Ledger::new();
    assert!(errands.running().is_empty());
    assert_eq!(errands.settled(), Some(Vec::new()));

    errands.begin("work", Errand::Pull);
    errands.finish("work", Outcome::Went("pull: already up to date".into()));
    assert!(errands.running().is_empty());
    assert_eq!(errands.settled(), Some(Vec::new()));
}

#[test]
fn a_finished_errand_stops_the_clock() {
    let mut errands = Ledger::new();
    errands.begin("work", Errand::Pull);
    errands.finish("work", Outcome::Went("pull: already up to date".into()));
    let took = errands.report("work").expect("it ran").took;
    let later = std::time::Instant::now() + std::time::Duration::from_millis(20);
    while std::time::Instant::now() < later {}
    assert_eq!(errands.report("work").expect("it ran").took, took);
}

#[test]
fn an_id_is_the_same_thing_in_both_themes_and_a_commit_is_an_id() {
    let (light, dark) = (light(), dark());
    assert_eq!(fill(palette::id(), &light), light.yellow);
    assert_eq!(fill(palette::id(), &dark), dark.yellow);
    // A commit is drawn with the id's ink.
    assert_eq!(fill(palette::id(), &dark), dark.yellow);
}

#[test]
fn the_slug_stays_the_ids_hue_a_step_down() {
    for terminal in [&light(), &dark()] {
        let id = fill(palette::id(), terminal);
        let slug = fill(palette::slug(), terminal);
        assert_ne!(id, slug);
        assert_eq!(slug, terminal.yellow_dim);
    }
}

#[test]
fn tag_punctuation_steps_back_by_hue() {
    let dark = dark();
    assert_eq!(fill(palette::tags_punct(), &dark), dark.grey);
    assert_ne!(fill(palette::tags_punct(), &dark), fill(palette::tags(), &dark));
}

#[test]
fn the_pin_has_a_hue_of_its_own_in_both_themes() {
    for terminal in [&light(), &dark()] {
        assert_eq!(fill(palette::pin(), terminal), terminal.magenta);
        assert_ne!(fill(palette::pin(), terminal), terminal.text);
        assert_ne!(fill(palette::pin(), terminal), fill(palette::tags(), terminal));
    }
    assert!(stylesheet().contains("--pin:"));
}

#[test]
fn dim_with_no_colour_is_what_a_timestamp_gets() {
    let light = light();
    assert_eq!(fill(palette::muted(), &light), light.dim);
    assert_ne!(fill(palette::muted(), &light), light.text);
}

#[test]
fn a_value_survives_the_trip() {
    for value in ["tag:\"24.04 Dark patterns\"", "100% of it", "筆記", "a+b&c=d", ""] {
        let asked = format!("q={}", encoded(value));
        assert_eq!(parameter(Some(&asked), "q"), value, "{asked}");
    }
}

#[test]
fn the_server_says_where_it_is_and_warns_off_the_loopback() {
    assert_eq!(listening("127.0.0.1:8080", true), vec!["noda is at http://127.0.0.1:8080"]);
    assert_eq!(
        listening("0.0.0.0:8080", false),
        vec!["noda is at http://0.0.0.0:8080", "reachable from the network — there is no password on it"]
    );
}

#[test]
fn a_stop_says_what_it_waits_for_and_what_it_left() {
    assert_eq!(finishing("SIGTERM"), "SIGTERM — finishing what is in flight");
    assert_eq!(not_waiting("SIGINT"), "SIGINT again — not waiting");
    assert_eq!(waiting("work", Errand::Sync), "waiting for sync in work — signal again to leave it unfinished");
    assert_eq!(unfinished(&Vec::new()), None);
    assert_eq!(
        unfinished(&vec![("work".to_string(), Errand::Push), ("home".to_string(), Errand::Sync)]).as_deref(),
        Some("left push in work, sync in home unfinished")
    );
}

#[test]
fn a_chips_link_reads_back_as_its_order_and_its_search() {
    let orders = [
        Order { sort: Sort::Slug, reversed: false },
        Order { sort: Sort::Slug, reversed: true },
        Order { sort: Sort::Created, reversed: true },
        Order { sort: Sort::Title, reversed: false },
    ];
    for order in orders {
        for typed in ["", "tag:q3 budget", "a&b=c", "réunion"] {
            let tail = order.asked(typed);
            let query = tail.strip_prefix('?');
            assert_eq!(query.is_none(), tail.is_empty(), "{tail}");
            assert_eq!(order_of(query), order, "{tail}");
            assert_eq!(parameter(query, "q"), typed, "{tail}");
        }
    }
    assert_eq!(
        Order { sort: Sort::Created, reversed: true }.asked("tag:q3 budget"),
        "?q=tag%3Aq3%20budget&sort=created&r=1"
    );
    assert_eq!(Order::default().asked(""), "");
}

#[test]
fn another_notebooks_errand_leaves_a_finished_ones_time_alone() {
    let mut errands = Ledger::new();
    errands.begin("work", Errand::Push);
    errands.finish("work", Outcome::Failed("no remote".into()));
    let took = errands.report("work").expect("it ran").took;
    assert!(errands.begin("home", Errand::Sync));
    errands.finish("home", Outcome::Went("synced".into()));
    let again = errands.report("work").expect("it ran");
    assert_eq!(again.took, took);
    assert_eq!(again.outcome, Some(Outcome::Failed("no remote".into())));
}
