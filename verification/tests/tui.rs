use noda::tui::queue::{confirmed, Queue, Queued};
use noda::tui::app::{Change, Step, What};
use noda::tui::stack::{gate, Gate, Stack};
use noda::tui::press::{browsed, Held, Pressed};
use noda::tui::prompt::{run, Aim, Ran};
use noda::tui::app::{Action, Run as Runs, Touch};
use noda::tui::band::{heading_of, status_line, title_runs, Typed};
use noda::tui::view::listing_columns;
use noda::tui::app::{Ask, Message, Mode};
use noda::tui::field::{Code, Edit, Field, Key};
use noda::palette::{self, Hue};
use noda::tui::theme::{ansi, from, Shade};
use noda::tui::app::{changes, cursor_to, half_page, jump, nearest, one_edit_apart, reading_height, recall, remember, scrolled, shown_tags, step, Choice, Edge, Mark, Subject, View};
use noda::tui::command::{commands, find, matching};
use noda::tui::frame::{compact, fitted_widths, header_rows, info, keys_for, labelled, looking, menu, session, Standing, INFO_ROWS, LABEL};
use noda::sort::Sort;
use noda::tui::view::{
    cut, keys, lines, marked, split_frontmatter, Shown, stamp, tags, under_mark, CURSOR_BAR, GUTTER, KEY_COLUMN, MARK, UNMARKED,
};
use std::collections::BTreeSet;

#[test]
fn every_spelling_is_its_own() {
    let mut seen = BTreeSet::new();
    for spec in commands() {
        assert!(seen.insert(spec.name), "`{}` is listed twice", spec.name);
        for alias in spec.aliases {
            assert!(seen.insert(alias), "`{alias}` spells both `{}` and something else", spec.name);
        }
    }
}

#[test]
fn a_command_is_found_by_its_name_or_by_a_spelling_of_it() {
    assert_eq!(find("open").map(|spec| spec.name), Some("open"));
    assert_eq!(find("o").map(|spec| spec.name), Some("open"));
    assert_eq!(find("show").map(|spec| spec.name), Some("open"));
    assert!(find("").is_none());
    assert!(find("pu").is_none());
    assert!(find("stat").is_none());
}

#[test]
fn the_list_is_searched_by_what_a_command_does_as_well_as_by_its_name() {
    let named: Vec<&str> = matching("tag").iter().map(|spec| spec.name).collect();
    assert_eq!(named, vec!["tags", "tag"]);

    let described: Vec<&str> = matching("remote").iter().map(|spec| spec.name).collect();
    assert!(described.contains(&"push"), "{described:?}");
    assert!(described.contains(&"pull"), "{described:?}");

    assert_eq!(matching("").len(), commands().len());
    assert_eq!(matching("zzz").len(), 0);
}

#[test]
fn what_a_command_takes_reads_as_one_line() {
    let open = find("open").expect("open");
    assert_eq!(open.usage(), "open <note>");
    let quit = find("quit").expect("quit");
    assert_eq!(quit.usage(), "quit");
}

/// Restated, since what is checked is that `LABEL` fits them.
const LABELS: [&str; 5] = ["Notebook", "Branch", "Remote", "Notes", "Changes"];

#[test]
fn the_longest_label_still_gets_a_gap_after_its_colon() {
    let widest = LABELS.iter().map(|label| label.chars().count() + ":".len()).max().expect("there are labels");
    assert!(LABEL > widest, "the widest label fills its own column: {widest} of {LABEL}");
}

#[test]
fn a_short_terminal_gets_a_header_it_can_afford() {
    assert_eq!(header_rows(40), INFO_ROWS);
    assert_eq!(header_rows(24), INFO_ROWS);
    assert_eq!(header_rows(14), 1);
}

/// A screen's keys in grid order, blanks left out.
fn named(view: &View) -> Vec<&'static str> {
    keys_for(view).into_iter().flatten().map(|(key, _)| key).filter(|key| !key.is_empty()).collect()
}

fn every_screen() -> Vec<View> {
    vec![
        View::Notes,
        View::Note("aaaa1111".to_string()),
        View::Todo,
        View::Tags,
        View::Files,
        View::Notebooks,
        View::Deleted,
        View::Diff,
        View::Log(None),
        View::Log(Some("aaaa1111".to_string())),
        View::Backlinks(Subject::Note("aaaa1111".to_string())),
        View::Backlinks(Subject::File("diagram.png".to_string())),
        View::Blame("aaaa1111".to_string()),
    ]
}

#[test]
fn the_keys_are_the_ones_the_screen_answers_to() {
    let listing = named(&View::Notes);
    assert!(listing.contains(&"enter"));
    assert!(listing.contains(&"space"));

    let note = named(&View::Note("aaaa1111".to_string()));
    assert!(!note.contains(&"space"));
    assert!(!note.contains(&"/"));
    for key in ["e", "m", "#", "ctrl-d", "T"] {
        assert!(listing.contains(&key), "the listing lost {key}");
        assert!(note.contains(&key), "the note lost {key}");
    }

    assert!(named(&View::Todo).contains(&"e"));
    assert!(!named(&View::Tags).contains(&"e"));
    assert!(!named(&View::Notebooks).contains(&"ctrl-d"));
}

#[test]
fn no_key_is_listed_twice_on_one_screen() {
    for view in every_screen() {
        let mut seen = BTreeSet::new();
        for key in named(&view) {
            assert!(seen.insert(key), "`{key}` is on {}'s grid twice", view.crumb());
        }
    }
}

#[test]
fn every_screen_says_how_to_leave_it_and_where_everything_else_is() {
    for view in every_screen() {
        let first: Vec<&str> = keys_for(&view)[0].iter().map(|(key, _)| *key).collect();
        for key in [":", "?"] {
            assert!(first.contains(&key), "{} does not show {key} in its first column", view.crumb());
        }
        if !matches!(view, View::Notes) {
            assert!(first.contains(&"esc"), "{} does not show esc in its first column", view.crumb());
        }
    }
}

#[test]
fn the_gutter_is_the_same_width_on_every_screen() {
    assert_eq!(CURSOR_BAR.chars().count(), GUTTER);
    assert_eq!(under_mark("ID"), "  ID");
    assert_eq!(UNMARKED.len(), MARK.chars().count());
}

#[test]
fn a_file_with_no_frontmatter_is_shown_as_it_stands() {
    let (front, body) = split_frontmatter("just prose\n");
    assert_eq!(front, "");
    assert_eq!(body, "just prose\n");

    let (front, body) = split_frontmatter("---\ntitle: unfinished\n");
    assert_eq!(front, "");
    assert_eq!(body, "---\ntitle: unfinished\n");
}

#[test]
fn a_closed_frontmatter_is_cut_after_its_last_dashes() {
    let (front, body) = split_frontmatter("---\ntitle: Meeting notes\n---\n\n# Agenda\n");
    assert_eq!(front, "---\ntitle: Meeting notes\n---\n");
    assert_eq!(body, "\n# Agenda\n");
}

#[test]
fn tags_are_written_the_way_the_listing_writes_them() {
    assert_eq!(tags(&[]), "");
    assert_eq!(tags(&["work".to_string(), "q3".to_string()]), "[work, q3]");
}

#[test]
fn the_help_card_still_fits_a_short_terminal() {
    let keys = keys();
    assert!(keys.len() + 2 <= 15, "the card has {} rows", keys.len() + 2);
    let widest = keys.iter().map(|(key, _)| key.chars().count()).max();
    assert_eq!(widest, Some(KEY_COLUMN));
}

#[test]
fn every_key_that_only_the_card_can_teach_is_on_the_card() {
    let said = keys().iter().map(|(key, what)| format!("{key} {what}")).collect::<Vec<_>>().join(" ");
    for key in ["ctrl-f", "S", "R", "ctrl-w", "1-9", "ctrl-g", "readline"] {
        assert!(said.contains(key), "the card does not teach {key}");
    }
}

#[test]
fn a_missing_time_is_a_dash() {
    assert_eq!(stamp(None), "-");
    assert_eq!(stamp(Some(&"2026-01-01T00:00:00Z".to_string())), "2026-01-01T00:00:00Z");
}

#[test]
fn a_title_too_long_for_its_room_is_cut_with_an_ellipsis() {
    assert_eq!(cut("Budget review", 20), "Budget review");
    assert_eq!(cut("Budget review", 8), "Budget…");
    assert_eq!(cut("會議紀錄", 3), "會議…");
}

#[test]
fn one_keystroke_apart_is_the_four_shapes_a_slip_takes() {
    assert!(one_edit_apart("Work", "work"));
    assert!(one_edit_apart("wor", "work"));
    assert!(one_edit_apart("works", "work"));
    assert!(one_edit_apart("wprk", "work"));
    assert!(one_edit_apart("wrok", "work"));
    assert!(one_edit_apart("q4", "q3"));
    assert!(!one_edit_apart("wrko", "work"));
    assert!(!one_edit_apart("workshop", "work"));
    assert!(!one_edit_apart("q3", "budget"));
}

fn choice(held: usize, mark: Mark) -> Choice {
    Choice { tag: "work".to_string(), held, notes: 4, mark }
}

#[test]
fn tab_goes_round_only_the_states_that_change_something() {
    // Some of three notes carry it: all three states.
    assert_eq!(choice(1, Mark::Leave).next(3), Mark::Add);
    assert_eq!(choice(1, Mark::Add).next(3), Mark::Remove);
    assert_eq!(choice(1, Mark::Remove).next(3), Mark::Leave);
    // All carry it: only removing changes anything.
    assert_eq!(choice(3, Mark::Leave).next(3), Mark::Remove);
    assert_eq!(choice(3, Mark::Remove).next(3), Mark::Leave);
    // None carries it: only adding does.
    assert_eq!(choice(0, Mark::Leave).next(3), Mark::Add);
    assert_eq!(choice(0, Mark::Add).next(3), Mark::Leave);
}

#[test]
fn the_box_says_what_is_true_or_what_is_being_done() {
    assert_eq!(choice(3, Mark::Leave).tick(3), "[x]");
    assert_eq!(choice(1, Mark::Leave).tick(3), "[ ]");
    assert_eq!(choice(0, Mark::Leave).tick(0), "[ ]");
    assert_eq!(choice(1, Mark::Add).tick(3), "[+]");
    assert_eq!(choice(1, Mark::Remove).tick(3), "[-]");
}

#[test]
fn an_id_is_the_same_yellow_in_both_writers() {
    assert_eq!(from(palette::id()).fg, Some(Shade::Yellow));
    assert_eq!(from(palette::tags()).fg, Some(Shade::Cyan));
}

#[test]
fn effects_survive_the_crossing() {
    assert!(from(palette::muted()).dim);
    assert!(from(palette::matched()).bold);
    let slug = from(palette::slug());
    assert_eq!(slug.fg, Some(Shade::Yellow));
    assert!(slug.dim);
}

#[test]
fn tag_punctuation_steps_back_without_leaning_on_dim() {
    let punct = from(palette::tags_punct());
    assert_eq!(punct.fg, Some(Shade::DarkGray));
    assert!(!punct.bold && !punct.dim);
    assert_ne!(punct.fg, from(palette::tags()).fg);
}

#[test]
fn white_is_drawn_gray_and_bright_white_white() {
    assert_eq!(ansi(Hue::White), Shade::Gray);
    assert_eq!(ansi(Hue::BrightWhite), Shade::White);
    assert_eq!(ansi(Hue::BrightBlack), Shade::DarkGray);
}

fn typed(text: &str) -> Field {
    let mut field = Field::default();
    field.set(text.to_string());
    field
}

fn key(code: Code) -> Key {
    Key { code, ctrl: false, alt: false }
}

fn ctrl(c: char) -> Key {
    Key { code: Code::Char(c), ctrl: true, alt: false }
}

fn alt(c: char) -> Key {
    Key { code: Code::Char(c), ctrl: false, alt: true }
}

#[test]
fn typing_goes_in_at_the_cursor_and_not_at_the_end() {
    let mut field = typed("budget");
    field.key(ctrl('a'));
    field.key(key(Code::Char('a')));
    assert_eq!(field.text(), "abudget");
    assert_eq!(field.before(), "a");
}

#[test]
fn the_cursor_walks_by_character_and_stops_at_both_ends() {
    let mut field = typed("ab");
    assert_eq!(field.key(ctrl('e')), Some(Edit::Moved));
    for _ in 0..4 {
        field.key(ctrl('b'));
    }
    assert_eq!(field.before(), "");
    for _ in 0..4 {
        field.key(ctrl('f'));
    }
    assert_eq!(field.before(), "ab");
}

#[test]
fn a_cursor_never_lands_inside_a_character() {
    let mut field = typed("預算");
    field.key(key(Code::Left));
    assert_eq!(field.before(), "預");
    field.key(key(Code::Backspace));
    assert_eq!(field.text(), "算");
    field.key(key(Code::Char('的')));
    assert_eq!(field.text(), "的算");
    assert_eq!(field.before(), "的");
}

#[test]
fn the_word_keys_step_over_letters_and_digits() {
    let mut field = typed("tag:work budget");
    assert_eq!(field.key(alt('b')), Some(Edit::Moved));
    assert_eq!(field.before(), "tag:work ");
    field.key(alt('b'));
    assert_eq!(field.before(), "tag:");
    field.key(alt('f'));
    assert_eq!(field.before(), "tag:work");
}

#[test]
fn ctrl_w_takes_a_whole_term_however_it_is_punctuated() {
    let mut field = typed("tag:work tag:\"12.34\"");
    assert_eq!(field.key(ctrl('w')), Some(Edit::Typed));
    assert_eq!(field.text(), "tag:work ");
    field.key(ctrl('w'));
    assert_eq!(field.text(), "");
}

#[test]
fn the_kills_take_each_end_of_the_line() {
    let mut field = typed("budget review");
    field.key(alt('b'));
    assert_eq!(field.key(ctrl('k')), Some(Edit::Typed));
    assert_eq!(field.text(), "budget ");
    assert_eq!(field.key(ctrl('u')), Some(Edit::Typed));
    assert_eq!(field.text(), "");
}

#[test]
fn alt_d_takes_the_word_in_front_of_the_cursor() {
    let mut field = typed("budget review");
    field.key(ctrl('a'));
    assert_eq!(field.key(alt('d')), Some(Edit::Typed));
    assert_eq!(field.text(), " review");
}

#[test]
fn what_a_kill_took_can_be_put_back() {
    let mut field = typed("tag:work budget");
    field.key(ctrl('w'));
    assert_eq!(field.text(), "tag:work ");
    assert_eq!(field.key(ctrl('y')), Some(Edit::Typed));
    assert_eq!(field.text(), "tag:work budget");
    assert_eq!(field.before(), "tag:work budget");
    field.key(ctrl('y'));
    assert_eq!(field.text(), "tag:work budgetbudget");
}

#[test]
fn a_kill_that_took_nothing_keeps_what_the_last_one_took() {
    let mut field = typed("budget");
    field.key(ctrl('u'));
    assert_eq!(field.key(ctrl('k')), None);
    assert_eq!(field.key(ctrl('u')), None);
    assert_eq!(field.key(ctrl('h')), None);
    field.key(ctrl('y'));
    assert_eq!(field.text(), "budget");
}

#[test]
fn ctrl_d_deletes_forward_and_nothing_else() {
    let mut field = typed("budget");
    field.key(ctrl('a'));
    assert_eq!(field.key(ctrl('d')), Some(Edit::Typed));
    assert_eq!(field.text(), "udget");
    assert_eq!(field.key(key(Code::Delete)), Some(Edit::Typed));
    assert_eq!(field.text(), "dget");
    field.key(ctrl('e'));
    assert_eq!(field.key(ctrl('d')), None);
    assert_eq!(field.text(), "dget");
}

#[test]
fn a_chord_this_does_not_bind_does_nothing_at_all() {
    let mut field = typed("Trip");
    assert_eq!(field.key(ctrl('p')), None);
    assert_eq!(field.key(alt('x')), None);
    assert_eq!(field.text(), "Trip");
    let shifted = Key { code: Code::Char('Q'), ctrl: false, alt: false };
    assert_eq!(field.key(shifted), Some(Edit::Typed));
    assert_eq!(field.text(), "TripQ");
}

#[test]
fn a_field_with_no_cursor_drawn_only_erases_from_the_end() {
    let mut field = typed("push");
    assert_eq!(field.erasing(ctrl('h')), Some(Edit::Typed));
    assert_eq!(field.text(), "pus");
    assert_eq!(field.erasing(ctrl('u')), Some(Edit::Typed));
    assert_eq!(field.text(), "");
    field.set("push".to_string());
    assert_eq!(field.erasing(ctrl('a')), None);
    assert_eq!(field.erasing(alt('b')), None);
    assert_eq!(field.erasing(key(Code::Left)), None);
    field.erasing(key(Code::Char('x')));
    assert_eq!(field.text(), "pushx", "and typing still goes on the end");
}

#[test]
fn what_is_put_in_the_field_can_be_added_to_straight_away() {
    let mut field = typed("Budget review");
    field.key(key(Code::Char('!')));
    assert_eq!(field.text(), "Budget review!");
}

fn terms(text: &str) -> Vec<String> {
    text.split(' ').map(str::to_string).collect()
}

fn whole(runs: &[(String, bool)]) -> String {
    runs.iter().map(|(text, _)| text.as_str()).collect()
}

fn picked(runs: &[(String, bool)]) -> Vec<&str> {
    runs.iter().filter(|(_, hit)| *hit).map(|(text, _)| text.as_str()).collect()
}

#[test]
fn a_line_with_nothing_to_mark_is_one_span() {
    let line = marked("Meeting notes", &[]);
    assert_eq!(line.len(), 1);
    assert_eq!(whole(&line), "Meeting notes");
}

#[test]
fn the_match_is_picked_out_of_the_line_it_sits_in() {
    let line = marked("the q3 budget is late", &terms("budget"));
    assert_eq!(picked(&line), vec!["budget"]);
    assert_eq!(whole(&line), "the q3 budget is late");
}

#[test]
fn every_occurrence_is_marked_and_the_line_survives_whole() {
    let line = marked("budget, budget, budget", &terms("budget"));
    assert_eq!(picked(&line).len(), 3);
    assert_eq!(whole(&line), "budget, budget, budget");
}

#[test]
fn a_match_is_found_whatever_case_it_was_written_in() {
    let line = marked("The Q3 Budget", &terms("q3"));
    assert_eq!(picked(&line), vec!["Q3"]);
}

#[test]
fn a_match_in_a_language_without_spaces_keeps_its_boundaries() {
    let line = marked("這是會議紀錄", &terms("會議"));
    assert_eq!(whole(&line), "這是會議紀錄");
    assert_eq!(picked(&line), vec!["會議"]);
}

#[test]
fn an_empty_line_is_one_empty_run_and_the_first_term_wins_a_tie() {
    assert_eq!(marked("", &terms("x")), vec![(String::new(), false)]);
    let line = marked("budgets", &terms("budget budgets"));
    assert_eq!(picked(&line), vec!["budget"]);
    assert_eq!(whole(&line), "budgets");
}

#[test]
fn the_frontmatter_is_dimmed_and_the_note_is_not() {
    let file = "---\ntitle: Meeting notes\ntags: [work]\n---\n\n# Agenda\nbudget\n";
    let rendered = lines(file, &[]);
    assert_eq!(rendered[0], Shown::Dimmed("---".to_string()));
    let agenda = rendered
        .iter()
        .find(|line| matches!(line, Shown::Body(runs) if whole(runs) == "# Agenda"))
        .expect("the body is there");
    assert!(matches!(agenda, Shown::Body(_)));
    assert!(!rendered.iter().any(|line| matches!(line, Shown::Dimmed(text) if text == "# Agenda")));
}

#[test]
fn lines_end_where_str_lines_ends_them() {
    let rendered = lines("a\r\nb\n\nc", &[]);
    let texts: Vec<String> = rendered
        .iter()
        .map(|line| match line {
            Shown::Body(runs) => whole(runs),
            Shown::Dimmed(text) => text.clone(),
        })
        .collect();
    assert_eq!(texts, vec!["a", "b", "", "c"]);
    assert!(lines("", &[]).is_empty());
}

fn shown_keys(rows: &[Vec<(String, bool)>]) -> Vec<String> {
    rows.iter().flatten().filter(|(_, key)| *key).map(|(text, _)| text.clone()).collect()
}

#[test]
fn a_wide_header_lists_every_key_and_the_rows_line_up() {
    let rows = menu(&View::Notes, 400);
    assert_eq!(rows.len(), 5);
    let keys = shown_keys(&rows);
    for key in ["<enter>", "</>", "<:>", "<?>", "<e>", "<ctrl-d>"] {
        assert!(keys.contains(&key.to_string()), "{key} is missing: {keys:?}");
    }
    let width = |row: &Vec<(String, bool)>| row.iter().map(|(text, _)| text.chars().count()).sum::<usize>();
    assert!(rows.iter().all(|row| width(row) == width(&rows[0])), "{rows:?}");
}

#[test]
fn a_narrow_header_drops_columns_from_the_right() {
    let wide = menu(&View::Notes, 400);
    let narrow = menu(&View::Notes, 40);
    let first = fitted_widths(&View::Notes, 40);
    assert!(first.iter().sum::<usize>() <= 40);
    assert!(shown_keys(&narrow).len() < shown_keys(&wide).len());
    assert!(shown_keys(&narrow).contains(&"<enter>".to_string()));
    assert!(menu(&View::Notes, 0).iter().all(|row| row.is_empty()));
}

fn a_standing() -> Standing {
    Standing {
        branch: "main".to_string(),
        drift: Some((2, 0)),
        files: 1,
        uncommitted: 0,
        remote: None,
    }
}

fn said(runs: &[(String, palette::Ink)]) -> String {
    runs.iter().map(|(text, _)| text.as_str()).collect()
}

#[test]
fn every_label_takes_the_same_room() {
    assert_eq!(labelled("Notebook"), "Notebook: ");
    assert_eq!(labelled("Notes"), "Notes:    ");
    assert_eq!(labelled("Notes").chars().count(), LABEL);
}

#[test]
fn the_facts_are_five_labelled_rows_in_a_fixed_order() {
    let rows = info("work", 3, &a_standing());
    let texts: Vec<String> = rows.iter().map(|row| said(row)).collect();
    assert_eq!(
        texts,
        vec![
            "Notebook: work",
            "Branch:   main  ↑2 ↓0",
            "Remote:   none",
            "Notes:    3 notes  1 file",
            "Changes:  none",
        ]
    );
    assert_eq!(rows[0][0].1, palette::muted());
    assert!(rows[0][1].1.bold);
    let busy = Standing { uncommitted: 2, remote: Some("git@example.com:me/work.git".to_string()), ..a_standing() };
    let rows = info("work", 1, &busy);
    assert_eq!(said(&rows[4]), "Changes:  2 uncommitted");
    assert_eq!(said(&rows[2]), "Remote:   git@example.com:me/work.git");
}

#[test]
fn a_short_terminal_says_it_all_on_one_line() {
    assert_eq!(said(&compact("work", 1, &a_standing())), "work  (main)  1 note");
    let busy = Standing { uncommitted: 3, ..a_standing() };
    assert_eq!(said(&compact("work", 2, &busy)), "work  (main)  2 notes  3 uncommitted");
}

#[test]
fn keyed_in_state_is_set_off_by_gaps() {
    assert!(session(false, 0, 0).is_empty());
    assert_eq!(said(&session(true, 2, 1)), "keeping updated  2 marks  1 queued");
    assert_eq!(said(&session(false, 1, 0)), "1 mark");
}

#[test]
fn the_order_is_said_only_when_it_is_not_the_default() {
    assert_eq!(looking(Sort::Slug, false, false), None);
    assert_eq!(looking(Sort::Updated, false, false).as_deref(), Some("by updated"));
    assert_eq!(looking(Sort::Slug, true, true).as_deref(), Some("by slug reversed wide"));
    assert_eq!(looking(Sort::Slug, false, true).as_deref(), Some("wide"));
}

#[test]
fn a_scroll_stays_between_the_top_and_the_last_line() {
    assert_eq!(scrolled(5, 3, 10), 8);
    assert_eq!(scrolled(5, 30, 10), 10);
    assert_eq!(scrolled(5, -10, 10), 0);
    assert_eq!(scrolled(9, -3, 10), 6);
    assert_eq!(scrolled(0, i32::MIN, 10), 0);
    assert_eq!(scrolled(u16::MAX, 1, u16::MAX), u16::MAX);
}

fn a_choice(tag: &str, notes: usize, mark: Mark) -> Choice {
    Choice { tag: tag.to_string(), held: 0, notes, mark }
}

#[test]
fn the_picker_filter_is_trimmed_and_ignores_case() {
    let choices = vec![
        a_choice("work", 2, Mark::Leave),
        a_choice("q3", 1, Mark::Leave),
        a_choice("Quarterly", 1, Mark::Leave),
    ];
    assert_eq!(shown_tags(&choices, ""), vec![0, 1, 2]);
    assert_eq!(shown_tags(&choices, "   "), vec![0, 1, 2]);
    assert_eq!(shown_tags(&choices, " Q "), vec![1, 2]);
    assert_eq!(shown_tags(&choices, "q3"), vec![1]);
    assert_eq!(shown_tags(&choices, "zz"), Vec::<usize>::new());
}

#[test]
fn a_slip_of_a_key_names_the_commonest_tag_meant() {
    let choices = vec![
        a_choice("work", 2, Mark::Leave),
        a_choice("q3", 1, Mark::Leave),
    ];
    for typed in ["wrok", "Work", "wrk", "workk"] {
        assert_eq!(nearest(&choices, typed), Some(("work".to_string(), 2)), "{typed}");
    }
    assert_eq!(nearest(&choices, "budget"), None);
}

#[test]
fn a_tag_made_in_the_picker_is_never_the_one_meant() {
    let choices = vec![a_choice("work", 0, Mark::Add)];
    assert_eq!(nearest(&choices, "wrok"), None);
}

#[test]
fn of_two_tags_a_slip_away_the_commonest_wins_and_the_later_on_a_tie() {
    let choices = vec![
        a_choice("cat", 3, Mark::Leave),
        a_choice("car", 5, Mark::Leave),
        a_choice("cab", 5, Mark::Leave),
    ];
    assert_eq!(nearest(&choices, "ca"), Some(("cab".to_string(), 5)));
}

#[test]
fn the_picker_writes_its_changes_in_the_commands_notation() {
    let choices = vec![
        a_choice("work", 2, Mark::Remove),
        a_choice("q3", 1, Mark::Add),
        a_choice("home", 4, Mark::Leave),
        a_choice("two words", 0, Mark::Add),
    ];
    assert_eq!(
        changes(&choices),
        vec!["-work".to_string(), "+q3".to_string(), "+two words".to_string()]
    );
    let untouched = vec![a_choice("home", 4, Mark::Leave)];
    assert!(changes(&untouched).is_empty());
}

#[test]
fn the_cursor_stops_at_both_ends_of_the_rows() {
    let mut at = Some(0);
    for _ in 0..10 {
        at = step(at, 1, 3);
    }
    assert_eq!(at, Some(2));
    for _ in 0..10 {
        at = step(at, -1, 3);
    }
    assert_eq!(at, Some(0));
    assert_eq!(step(None, 1, 3), None);
    assert_eq!(step(Some(1), i32::MIN, 3), Some(0));
    assert_eq!(step(Some(1), i32::MAX, 3), Some(2));
    assert_eq!(step(Some(1), 1, 0), None);
}

#[test]
fn half_a_page_is_at_least_one_row() {
    assert_eq!(half_page(4), 2);
    assert_eq!(half_page(5), 2);
    assert_eq!(half_page(1), 1);
    assert_eq!(half_page(0), 1);
    // Half of a four-row page from the first of three rows reaches the last.
    assert_eq!(step(Some(0), half_page(4), 3), Some(2));
    assert_eq!(step(Some(2), -half_page(4), 3), Some(0));
}

#[test]
fn the_ends_are_one_key_away_and_an_empty_screen_has_no_cursor() {
    assert_eq!(jump(Edge::Last, 3), Some(2));
    assert_eq!(jump(Edge::First, 3), Some(0));
    assert_eq!(jump(Edge::Last, 0), None);
    assert_eq!(cursor_to(7, 3), Some(2));
    assert_eq!(cursor_to(1, 3), Some(1));
    assert_eq!(cursor_to(0, 0), None);
}

#[test]
fn a_page_scrolls_until_its_last_line_is_at_the_top() {
    assert_eq!(reading_height(0), 0);
    assert_eq!(reading_height(1), 0);
    assert_eq!(reading_height(40), 39);
    assert_eq!(reading_height(65537), 0);
}

#[test]
fn the_prompts_history_walks_as_a_shells_does() {
    let mut history: Vec<String> = Vec::new();
    assert_eq!(recall(&history, None, true), None);
    remember(&mut history, "status");
    remember(&mut history, "push");
    remember(&mut history, "push");
    assert_eq!(history, vec!["status".to_string(), "push".to_string()]);

    let (at, line) = recall(&history, None, true).unwrap();
    assert_eq!((at, line.as_str()), (Some(1), "push"));
    let (at, line) = recall(&history, at, true).unwrap();
    assert_eq!((at, line.as_str()), (Some(0), "status"));
    let (at, line) = recall(&history, at, true).unwrap();
    assert_eq!((at, line.as_str()), (Some(0), "status"));
    let (at, line) = recall(&history, at, false).unwrap();
    assert_eq!((at, line.as_str()), (Some(1), "push"));
    // Forward past the newest gives back an empty line.
    let (at, line) = recall(&history, at, false).unwrap();
    assert_eq!((at, line.as_str()), (None, ""));
    let (at, _) = recall(&history, at, false).unwrap();
    assert_eq!(at, None);
}

fn texts_of(runs: &[(String, noda::palette::Ink)]) -> Vec<String> {
    runs.iter().map(|(t, _)| t.clone()).collect()
}

#[test]
fn the_title_band_names_the_screen_and_rules_to_the_edge() {
    let notes = heading_of(&View::Notes, "", 3, "work", "", Some("by updated"));
    assert_eq!(texts_of(&notes), vec!["Notes", "  all", "  3", "  by updated"]);
    assert_eq!(notes[0].1, palette::matched());
    assert_eq!(notes[1].1, palette::muted());
    let searched = heading_of(&View::Notes, "tag:q3", 1, "work", "", None);
    assert_eq!(texts_of(&searched), vec!["Notes", "  tag:q3", "  1"]);
    let note = heading_of(&View::Note("k3f9".to_string()), "", 0, "work", "Budget", None);
    assert_eq!(texts_of(&note), vec!["Note", "  k3f9", "  ", "Budget"]);
    let log = heading_of(&View::Log(None), "", 12, "work", "", None);
    assert_eq!(texts_of(&log), vec!["Log", "  work", "  12"]);
    let diff = heading_of(&View::Diff, "", 9, "work", "", None);
    assert_eq!(texts_of(&diff), vec!["Diff"]);
    let links = heading_of(&View::Backlinks(Subject::File("a.pdf".to_string())), "", 2, "work", "", None);
    assert_eq!(texts_of(&links), vec!["Backlinks", "  a.pdf", "  2"]);

    // "Diff" is 4 wide; the held part 2 wide takes 3 with its space.
    let held = vec![("2 marks".to_string(), palette::matched())];
    let band = title_runs(heading_of(&View::Diff, "", 0, "w", "", None), held.clone(), 20);
    assert_eq!(texts_of(&band), vec!["Diff", &format!(" {}", "─".repeat(20 - (4 + 8 + 1))), " ", "2 marks"]);
    let narrow = title_runs(heading_of(&View::Diff, "", 0, "w", "", None), held, 10);
    assert_eq!(texts_of(&narrow), vec!["Diff", " ", "2 marks"]);
    let alone = title_runs(heading_of(&View::Diff, "", 0, "w", "", None), Vec::new(), 8);
    assert_eq!(texts_of(&alone), vec!["Diff", " ───"]);
}

#[test]
fn the_status_line_holds_what_is_typed_and_puts_the_cursor_after_it() {
    let typed = Typed { input: "pu", input_before: "p", search: "tag:q3", search_before: "tag", };
    let busy = status_line(Some("Pushing…"), Mode::Command, &typed, None, Some("bad"));
    assert_eq!(texts_of(&busy.left), vec!["Pushing…"]);
    assert!(busy.right.is_empty());
    assert_eq!(busy.cursor, None);

    let command = status_line(None, Mode::Command, &typed, None, None);
    assert_eq!(texts_of(&command.left), vec![":", "pu"]);
    assert_eq!(command.cursor, Some(2));
    let search = status_line(None, Mode::Search, &typed, None, None);
    assert_eq!(texts_of(&search.left), vec!["/", "tag:q3"]);
    assert_eq!(search.cursor, Some(4));
    let ask = status_line(None, Mode::Ask(Ask::Title), &typed, None, None);
    assert_eq!(texts_of(&ask.left), vec!["new note  ", "pu"]);
    assert_eq!(ask.cursor, Some(11));
    assert_eq!(texts_of(&ask.right), vec!["Enter alone takes the title from the body"]);
    let wide = Typed { input: "東京", input_before: "東", search: "", search_before: "" };
    assert_eq!(status_line(None, Mode::Command, &wide, None, None).cursor, Some(3));

    let failed = Message { text: "no remote\nsecond line".to_string(), failed: true };
    let said = status_line(None, Mode::Browse, &typed, Some(&failed), Some("the query is unfinished"));
    assert_eq!(texts_of(&said.left), vec!["no remote"]);
    assert_eq!(said.left[0].1, palette::invalid());
    assert_eq!(texts_of(&said.right), vec!["the query is unfinished"]);
    assert_eq!(said.cursor, None);

    let kept = status_line(None, Mode::Browse, &typed, None, None);
    assert_eq!(texts_of(&kept.left), vec!["/", "tag:q3"]);
    assert_eq!(kept.left[1].1, palette::muted());
    let blank = Typed { input: "", input_before: "", search: "", search_before: "" };
    assert!(status_line(None, Mode::Browse, &blank, None, None).left.is_empty());
}

fn a_file(id: &str, slug: &str, tags: &[&str], pinned: bool) -> noda::note::NoteFile {
    noda::note::NoteFile {
        id: id.to_string(),
        slug: slug.to_string(),
        note: noda::note::Note {
            title: "t".to_string(),
            tags: tags.iter().map(|t| t.to_string()).collect(),
            created: Some("2026-08-15T08:59:03Z".to_string()),
            updated: None,
            pinned: if pinned { Some(true) } else { None },
            extra: vec![],
            body: String::new(),
        },
    }
}

#[test]
fn long_columns_are_dropped_from_the_right_and_tags_get_what_is_left() {
    let files = vec![a_file("k3f9", "budget-review", &["work", "q3"], false), a_file("ab", "x", &[], false)];
    let plain = listing_columns(&files, false, 80);
    assert_eq!(plain.id, 4);
    assert!(plain.long.is_empty());
    assert_eq!(plain.tags, "[work, q3]".len());
    assert!(!plain.pin);

    let long = listing_columns(&files, true, 200);
    assert_eq!(long.long, vec![13, 20, 1]);
    // inner 78; slug+created+updated need 34 + 5 gaps of 2 + 6 + 10 = 60.
    let fits = listing_columns(&files, true, 80);
    assert_eq!(fits.long, vec![13, 20, 1]);
    assert_eq!(fits.tags, 10);
    // inner 58: all three need 60, two need 57.
    let two = listing_columns(&files, true, 60);
    assert_eq!(two.long, vec![13, 20]);
    assert_eq!(two.tags, 1);
    let none = listing_columns(&files, true, 20);
    assert!(none.long.is_empty());
    assert_eq!(none.tags, 0);

    let pinned = vec![a_file("k3f9", "b", &[], true)];
    let with_pin = listing_columns(&pinned, false, 80);
    assert!(with_pin.pin);
    assert_eq!(with_pin.tags, 0);
}

fn on_note(id: Option<&str>) -> Aim {
    Aim {
        on_screen: id.map(|i| i.to_string()),
        file_here: None,
        about: id.map(|i| i.to_string()),
        touch: Touch::Stamp,
        queue_empty: true,
    }
}

fn ran(line: &str, aim: &Aim) -> Ran {
    let mut history = Vec::new();
    run(&mut history, line, aim)
}

#[test]
fn a_tag_change_is_told_from_a_note_by_the_sign_in_front_of_it() {
    let aim = on_note(Some("aaaa1111"));
    assert_eq!(
        ran("tag +urgent", &aim),
        Ran::Act(Action::Tag { key: "aaaa1111".to_string(), changes: vec!["+urgent".to_string()], touch: Touch::Stamp })
    );
    assert_eq!(
        ran("tag cccc3333 -work +q3", &aim),
        Ran::Act(Action::Tag {
            key: "cccc3333".to_string(),
            changes: vec!["-work".to_string(), "+q3".to_string()],
            touch: Touch::Stamp,
        })
    );
    assert_eq!(
        ran("tag -\"24.04 Dark patterns\"", &aim),
        Ran::Act(Action::Tag {
            key: "aaaa1111".to_string(),
            changes: vec!["-24.04 Dark patterns".to_string()],
            touch: Touch::Stamp,
        })
    );
}

#[test]
fn a_command_line_is_read_as_noda_reads_its_arguments() {
    let aim = on_note(Some("aaaa1111"));
    assert_eq!(ran("   ", &aim), Ran::Nothing);
    assert_eq!(ran("notes tag:\"12.34 foo bar\"", &aim), Ran::Notes("tag:\"12.34 foo bar\"".to_string()));
    let Ran::Refused(said) = ran("frobnicate the notebook", &aim) else { panic!("refused") };
    assert_eq!(said, "no command `frobnicate` — Ctrl-a lists them");
    let Ran::Refused(said) = ran("open", &aim) else { panic!("refused") };
    assert!(said.contains("open <note>"), "{said}");
    assert!(matches!(ran("doctor --fix", &aim), Ran::Refused(_)));
    assert_eq!(ran("open meeting-notes", &aim), Ran::Act(Action::Open("meeting-notes".to_string())));
    assert_eq!(ran("o meeting-notes", &aim), Ran::Act(Action::Open("meeting-notes".to_string())));
    assert_eq!(
        ran("mv Budget revision", &aim),
        Ran::Act(Action::Retitle { key: "aaaa1111".to_string(), title: "Budget revision".to_string(), touch: Touch::Stamp })
    );
    assert_eq!(ran("rm", &aim), Ran::Delete);
    assert_eq!(ran("doctor", &aim), Ran::Act(Action::Run(Runs::Doctor { links: false, times: false })));
    assert_eq!(ran("doctor --links --times", &aim), Ran::Act(Action::Run(Runs::Doctor { links: true, times: true })));
    assert_eq!(ran("sync", &aim), Ran::Act(Action::Run(Runs::Sync)));
    assert_eq!(ran("add", &aim), Ran::Act(Action::Add(None)));
    assert_eq!(ran("add Q3 plan", &aim), Ran::Act(Action::Add(Some("Q3 plan".to_string()))));
    assert_eq!(ran("log", &aim), Ran::Open(View::Log(Some("aaaa1111".to_string()))));
    assert_eq!(ran("use home", &aim), Ran::Switch("home".to_string()));
    assert_eq!(ran("quit", &aim), Ran::Act(Action::Quit));
    let queued = Aim { queue_empty: false, ..on_note(None) };
    assert_eq!(ran("quit", &queued), Ran::AskQuit);
    let Ran::Refused(said) = ran("edit", &on_note(None)) else { panic!("refused") };
    assert_eq!(said, "no note on screen — name one, or open one first");
    let file = Aim { file_here: Some("a.pdf".to_string()), ..on_note(None) };
    assert_eq!(ran("backlinks", &file), Ran::Open(View::Backlinks(Subject::File("a.pdf".to_string()))));
}

#[test]
fn a_line_run_is_remembered_once() {
    let aim = on_note(None);
    let mut history = Vec::new();
    run(&mut history, "  status ", &aim);
    run(&mut history, "status", &aim);
    run(&mut history, "", &aim);
    assert_eq!(history, vec!["status".to_string()]);
}

#[test]
fn a_command_that_is_not_one_says_so_on_the_line_and_does_nothing() {
    let Ran::Refused(said) = ran("frobnicate the notebook", &on_note(Some("aaaa1111"))) else { panic!("a reason") };
    assert!(said.contains("frobnicate"), "{said}");
}

#[test]
fn a_command_that_needs_something_says_what_it_takes() {
    let aim = on_note(Some("aaaa1111"));
    let Ran::Refused(said) = ran("open", &aim) else { panic!("a reason") };
    assert!(said.contains("open <note>"), "{said}");
    assert!(matches!(ran("doctor --fix", &aim), Ran::Refused(_)));
}

#[test]
fn opening_by_name_is_left_to_the_notebook_to_answer() {
    assert_eq!(ran("open meeting-notes", &on_note(Some("aaaa1111"))), Ran::Act(Action::Open("meeting-notes".to_string())));
}

#[test]
fn a_command_on_a_note_is_aimed_at_the_note_it_is_on() {
    assert_eq!(
        ran("mv Budget revision", &on_note(Some("aaaa1111"))),
        Ran::Act(Action::Retitle { key: "aaaa1111".to_string(), title: "Budget revision".to_string(), touch: Touch::Stamp })
    );
}

#[test]
fn doctor_from_here_reports_and_changes_nothing() {
    let aim = on_note(Some("aaaa1111"));
    assert_eq!(ran("doctor", &aim), Ran::Act(Action::Run(Runs::Doctor { links: false, times: false })));
    assert_eq!(ran("doctor --links --times", &aim), Ran::Act(Action::Run(Runs::Doctor { links: true, times: true })));
}

#[test]
fn the_network_commands_say_what_is_being_waited_for() {
    let Ran::Act(sync) = ran("sync", &on_note(Some("aaaa1111"))) else { panic!("a command to run") };
    assert_eq!(sync, Action::Run(Runs::Sync));
    assert_eq!(sync.working(), Some("syncing…"));
    assert_eq!(Action::Run(Runs::Status).working(), None);
}

#[test]
fn quitting_by_name_asks_about_the_queue_too() {
    let queued = Aim { queue_empty: false, ..on_note(Some("aaaa1111")) };
    assert_eq!(ran("quit", &queued), Ran::AskQuit);
}

fn held_on(selected: Option<(&str, &str, bool)>) -> Held {
    Held {
        selected: selected.map(|(i, t, p)| (i.to_string(), t.to_string(), p)),
        file_here: None,
        about: None,
        touch: Touch::Stamp,
        marks_empty: true,
        queue_empty: true,
        on_listing: true,
        page: 4,
    }
}

fn plain_key(c: char) -> Key {
    Key { code: Code::Char(c), ctrl: false, alt: false }
}

fn chord(c: char) -> Key {
    Key { code: Code::Char(c), ctrl: true, alt: false }
}

#[test]
fn the_keys_that_mean_the_same_everywhere_are_answered_first() {
    let on = held_on(Some(("aaaa1111", "Budget", false)));
    assert_eq!(browsed(plain_key('q'), &on), Pressed::Act(Action::Quit));
    assert_eq!(browsed(plain_key('q'), &Held { queue_empty: false, ..held_on(None) }), Pressed::AskQuit);
    assert_eq!(browsed(plain_key('r'), &on), Pressed::Act(Action::Reload));
    assert_eq!(browsed(plain_key('T'), &on), Pressed::Touching(Touch::Keep));
    assert_eq!(browsed(plain_key('e'), &on), Pressed::Act(Action::Edit { key: "aaaa1111".to_string(), touch: Touch::Stamp }));
    assert_eq!(browsed(plain_key('e'), &held_on(None)), Pressed::Nothing);
    assert_eq!(browsed(plain_key('m'), &on), Pressed::Asking(noda::tui::app::Ask::Retitle, "Budget".to_string()));
    assert_eq!(
        browsed(plain_key('p'), &on),
        Pressed::Act(Action::Pin { key: "aaaa1111".to_string(), pinned: true, touch: Touch::Stamp })
    );
    assert_eq!(browsed(plain_key('p'), &held_on(None)), Pressed::Said("no note on screen — open one first".to_string(), true));
    assert_eq!(browsed(plain_key('#'), &on), Pressed::Pick(vec!["aaaa1111".to_string()]));
    assert_eq!(browsed(plain_key('#'), &Held { marks_empty: false, ..held_on(None) }), Pressed::PickMarked);
    assert_eq!(browsed(plain_key('3'), &on), Pressed::Scope(3));
    assert_eq!(browsed(plain_key('0'), &on), Pressed::Scope(0));
    assert_eq!(browsed(plain_key('d'), &on), Pressed::Said("delete is Ctrl-d".to_string(), false));
    assert_eq!(browsed(plain_key('B'), &on), Pressed::Open(View::Blame("aaaa1111".to_string())));
    assert_eq!(browsed(plain_key('j'), &on), Pressed::Screen);
    assert_eq!(browsed(chord('f'), &on), Pressed::Step(2));
    assert_eq!(browsed(chord('b'), &on), Pressed::Step(-2));
    assert_eq!(browsed(chord('d'), &on), Pressed::Delete);
    assert_eq!(browsed(chord('w'), &Held { on_listing: false, ..held_on(None) }), Pressed::Nothing);
    assert_eq!(browsed(chord('w'), &on), Pressed::Wide);
    assert_eq!(browsed(chord('x'), &on), Pressed::Nothing);
}

#[test]
fn the_listing_is_never_popped_and_back_lands_where_it_was_left() {
    let mut stack = Stack::new();
    assert_eq!(stack.depth(), 1);
    assert!(!stack.back(), "the listing stays");
    stack.settle(Some(2), 0);
    stack.open(View::Note("aaaa1111".to_string()));
    stack.settle(None, 7);
    assert_eq!(stack.crumbs(), vec!["notes".to_string(), "aaaa1111".to_string()]);
    assert_eq!(stack.top().scroll, 7);
    assert!(stack.back());
    assert_eq!(stack.depth(), 1);
    assert_eq!(stack.top().cursor, Some(2), "where it was left");
    assert!(!stack.back());
}

#[test]
fn ctrl_c_leaves_from_inside_a_query_too() {
    let c = Key { code: Code::Char('c'), ctrl: true, alt: false };
    assert_eq!(gate(true, c, Mode::Search), Gate::Quit);
    assert_eq!(gate(true, c, Mode::Browse), Gate::Quit);
    assert_eq!(gate(false, c, Mode::Search), Gate::Ignored);
    let q = Key { code: Code::Char('q'), ctrl: false, alt: false };
    assert_eq!(gate(true, q, Mode::Search), Gate::Dispatch(Mode::Search));
    assert_eq!(gate(true, q, Mode::Help), Gate::Dismissed);
}

#[test]
fn whitespace_is_unicodes_list() {
    assert_eq!(noda::text::trim("\u{3000}\u{2028} x y\t\u{85}\u{A0}"), "x y");
    assert_eq!(noda::text::trim("\u{200B}x"), "\u{200B}x", "a zero-width space is not whitespace");
}

fn a_step(keys: &[&str], remove: bool) -> Step {
    Step {
        keys: keys.iter().map(|k| k.to_string()).collect(),
        change: if remove { Change::Remove } else { Change::Tag { changes: vec!["+archive".to_string()], touch: Touch::Stamp } },
    }
}

fn on(code: Code) -> Key {
    Key { code, ctrl: false, alt: false }
}

#[test]
fn the_queue_card_walks_drops_and_sends() {
    let mut queue = Queue::new();
    assert_eq!(queue.key(on(Code::Enter)), Queued::Close, "an empty queue closes");
    queue.push(a_step(&["aaaa1111"], false));
    queue.push(a_step(&["bbbb2222", "cccc3333"], false));
    assert_eq!(queue.key(on(Code::Char('j'))), Queued::Stay);
    assert_eq!(queue.at, 1);
    assert_eq!(queue.key(on(Code::Down)), Queued::Stay);
    assert_eq!(queue.at, 1, "the cursor stops at the last entry");
    assert_eq!(queue.key(on(Code::Char('d'))), Queued::Stay);
    assert_eq!(queue.steps, vec![a_step(&["aaaa1111"], false)]);
    assert_eq!(queue.at, 0);
    assert_eq!(queue.key(on(Code::Enter)), Queued::Send(Action::Send(vec![a_step(&["aaaa1111"], false)])));
    assert_eq!(queue.steps.len(), 1, "kept until the runtime says it went");
    queue.push(a_step(&["bbbb2222"], true));
    assert_eq!(queue.key(on(Code::Enter)), Queued::Ask(What::Send));
    assert_eq!(queue.key(on(Code::Esc)), Queued::Close);
    queue.sent();
    assert!(queue.steps.is_empty());
}

#[test]
fn only_a_y_agrees() {
    let mut queue = Queue::new();
    queue.push(a_step(&["aaaa1111"], true));
    let id = "aaaa1111".to_string();
    assert_eq!(confirmed(What::Delete, on(Code::Char('y')), Some(&id), &queue), Some(Action::Remove(id.clone())));
    assert_eq!(confirmed(What::Delete, on(Code::Char('n')), Some(&id), &queue), None);
    assert_eq!(confirmed(What::Send, on(Code::Char('Y')), None, &queue), Some(Action::Send(queue.steps.clone())));
    assert_eq!(confirmed(What::Quit, on(Code::Char('y')), None, &queue), Some(Action::Quit));
}
