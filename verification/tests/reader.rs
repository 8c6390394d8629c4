use salsa_reader::config::{Config, DELAY_STEP, START_DELAY};
use salsa_reader::cycle::{
    next_font_index, next_theme, next_theme_index, position_or_first, prev_font_index, prev_theme,
    prev_theme_index,
};
use salsa_reader::events::{
    command_for, early_action, faster, flip_files, initial_selection, reload_files,
    reload_flow, slower, start_stop, checked_selection, event_steps, AppEvent, Command,
    EarlyAction, Flow, Focus, Input, Key, KeyCode, KeyKind, Reload, Step, TimerOp, CONTROL, SHIFT,
    dialog_flow, file_list_step, first_consumed, fixed_flow, outcome_flow, pending_step, show_file,
    ShowFile, WidgetOutcome,
};
use salsa_reader::files::{select_txt_files, DirEntry, TxtFile};
use salsa_reader::screen::{auto_scroll, auto_scroll_in_range, file_list_width, Area, FILE_LIST_WIDTH};
use salsa_reader::text::{file_text, reflow_text};

fn names(list: &[&str]) -> Vec<String> {
    list.iter().map(|s| s.to_string()).collect()
}

fn entry(name: &str, is_file: bool) -> DirEntry {
    DirEntry { name: name.as_bytes().to_vec(), is_file }
}

fn raw_entry(name: &[u8], is_file: bool) -> DirEntry {
    DirEntry { name: name.to_vec(), is_file }
}

fn titles(files: &[TxtFile]) -> Vec<String> {
    files.iter().map(|f| f.title.clone()).collect()
}

fn key(code: KeyCode, modifiers: u8) -> Input {
    Input::Key(Key { code, modifiers, kind: KeyKind::Press })
}

// ---- configuration

#[test]
fn config_default_is_zero_delay_and_empty_base() {
    let c = Config::default();
    assert_eq!(c.delay, 0);
    assert_eq!(c.base, "");
}

#[test]
fn config_from_arg_uses_directory_or_current() {
    let c = Config::from_arg(Some("books".to_string()));
    assert_eq!(c.delay, 1500);
    assert_eq!(c.delay, START_DELAY);
    assert_eq!(c.base, "books");
    let d = Config::from_arg(None);
    assert_eq!(d.delay, 1500);
    assert_eq!(d.base, ".");
}

#[test]
fn faster_adds_one_step() {
    let mut c = Config::from_arg(None);
    c.faster();
    assert_eq!(c.delay, 1600);
    assert_eq!(DELAY_STEP, 100);
}

#[test]
fn slower_subtracts_one_step_above_floor() {
    let mut c = Config::from_arg(None);
    c.slower();
    assert_eq!(c.delay, 1400);
    c.delay = 101;
    c.slower();
    assert_eq!(c.delay, 1);
    c.slower();
    assert_eq!(c.delay, 1);
    c.delay = 100;
    c.slower();
    assert_eq!(c.delay, 100);
}

#[test]
fn law_faster_then_slower_restores_delay() {
    for d in [1u64, 50, 100, 1500] {
        let mut c = Config::default();
        c.delay = d;
        c.faster();
        c.slower();
        assert_eq!(c.delay, d);
    }
    // a zero delay is where the law does not hold
    let mut c = Config::default();
    c.faster();
    c.slower();
    assert_eq!(c.delay, 100);
}

#[test]
fn law_slower_then_faster_restores_delay_above_one_step() {
    let mut c = Config::default();
    c.delay = 250;
    c.slower();
    c.faster();
    assert_eq!(c.delay, 250);
}

#[test]
fn law_slower_keeps_delay_positive() {
    let mut c = Config::default();
    c.delay = 1;
    for _ in 0..30 {
        c.slower();
        assert!(c.delay > 0);
    }
}

// ---- file list

#[test]
fn select_txt_files_filters_and_sorts() {
    let entries = vec![
        entry("zeta.txt", true),
        entry("notes.md", true),
        entry("alpha.txt", true),
        entry("folder.txt", false),
        entry("txt", true),
        entry("Beta.txt", true),
        entry("a.b.txt", true),
    ];
    let files = select_txt_files(&entries);
    assert_eq!(titles(&files), vec!["Beta", "a.b", "alpha", "zeta"]);
    let idx: Vec<usize> = files.iter().map(|f| f.entry).collect();
    assert_eq!(idx, vec![5, 6, 2, 0]);
}

#[test]
fn select_txt_files_hidden_txt_keeps_whole_name() {
    let entries = vec![entry(".txt.txt", true), entry(".txt", true), entry("x.TXT", true)];
    let files = select_txt_files(&entries);
    // both have the title ".txt"; the file name decides
    assert_eq!(titles(&files), vec![".txt", ".txt"]);
    assert_eq!(files[0].entry, 1);
    assert_eq!(files[1].entry, 0);
}

#[test]
fn select_txt_files_orders_by_code_point() {
    let entries = vec![entry("é.txt", true), entry("z.txt", true), entry("Z.txt", true), entry("zz.txt", true)];
    let files = select_txt_files(&entries);
    assert_eq!(titles(&files), vec!["Z", "z", "zz", "é"]);
}

#[test]
fn select_txt_files_empty_directory() {
    let files = select_txt_files(&Vec::new());
    assert!(files.is_empty());
}

#[test]
fn select_txt_files_raw_names_break_title_ties() {
    // both names decode to "\u{FFFD}.txt"; the raw bytes decide, as paths compare
    let entries = vec![raw_entry(b"\x81.txt", true), raw_entry(b"\x80.txt", true)];
    let files = select_txt_files(&entries);
    assert_eq!(titles(&files), vec!["\u{FFFD}", "\u{FFFD}"]);
    let idx: Vec<usize> = files.iter().map(|f| f.entry).collect();
    assert_eq!(idx, vec![1, 0]);
    let reversed = vec![raw_entry(b"\x80.txt", true), raw_entry(b"\x81.txt", true)];
    let files = select_txt_files(&reversed);
    let idx: Vec<usize> = files.iter().map(|f| f.entry).collect();
    assert_eq!(idx, vec![0, 1]);
}

#[test]
fn select_txt_files_decodes_names_lossily() {
    let entries = vec![raw_entry(b"caf\xc3\xa9.txt", true), raw_entry(b"x\xffy.txt", true)];
    let files = select_txt_files(&entries);
    assert_eq!(titles(&files), vec!["café", "x\u{FFFD}y"]);
}

#[test]
fn select_txt_files_equal_names_keep_listing_order() {
    let entries = vec![entry("b.txt", true), entry("a.txt", true), entry("a.txt", true)];
    let files = select_txt_files(&entries);
    let idx: Vec<usize> = files.iter().map(|f| f.entry).collect();
    assert_eq!(idx, vec![1, 2, 0]);
}

#[test]
fn law_listing_order_does_not_matter() {
    let a = vec![
        entry("c.txt", true),
        entry("a.txt", true),
        entry("b.md", true),
        entry("B.txt", true),
        entry("d", false),
    ];
    let b = vec![
        entry("d", false),
        entry("B.txt", true),
        entry("b.md", true),
        entry("a.txt", true),
        entry("c.txt", true),
    ];
    let fa = select_txt_files(&a);
    let fb = select_txt_files(&b);
    assert_eq!(titles(&fa), titles(&fb));
    let na: Vec<Vec<u8>> = fa.iter().map(|f| a[f.entry].name.clone()).collect();
    let nb: Vec<Vec<u8>> = fb.iter().map(|f| b[f.entry].name.clone()).collect();
    assert_eq!(na, nb);
    assert_eq!(na, vec![b"B.txt".to_vec(), b"a.txt".to_vec(), b"c.txt".to_vec()]);
}

// ---- themes and fonts

#[test]
fn position_or_first_finds_first_match() {
    let l = names(&["a", "b", "a"]);
    assert_eq!(position_or_first(&l, &"a".to_string()), 0);
    assert_eq!(position_or_first(&l, &"b".to_string()), 1);
    assert_eq!(position_or_first(&l, &"c".to_string()), 0);
}

#[test]
fn theme_index_steps_wrap_around() {
    let l = names(&["one", "two", "three"]);
    assert_eq!(next_theme_index(&l, &"one".to_string()), 1);
    assert_eq!(next_theme_index(&l, &"three".to_string()), 0);
    assert_eq!(prev_theme_index(&l, &"one".to_string()), 2);
    assert_eq!(prev_theme_index(&l, &"three".to_string()), 1);
    // unknown theme: as if it were the first
    assert_eq!(next_theme_index(&l, &"none".to_string()), 1);
    assert_eq!(prev_theme_index(&l, &"none".to_string()), 2);
}

#[test]
fn law_theme_next_then_prev_returns() {
    let l = names(&["one", "two", "three", "four"]);
    for name in &l {
        let n = next_theme_index(&l, name);
        let p = prev_theme_index(&l, &l[n]);
        assert_eq!(&l[p], name);
        let p2 = prev_theme_index(&l, name);
        let n2 = next_theme_index(&l, &l[p2]);
        assert_eq!(&l[n2], name);
    }
}

#[test]
fn font_steps_and_their_exception() {
    let l = names(&["f0", "f1", "f2", "f3"]);
    assert_eq!(next_font_index(&l, &"f3".to_string()), 0);
    assert_eq!(prev_font_index(&l, &"f2".to_string()), 1);
    assert_eq!(prev_font_index(&l, &"f1".to_string()), 3);
    assert_eq!(prev_font_index(&l, &"f0".to_string()), 3);
    // F7 then Shift-F7 from the first font does not come back
    let n = next_font_index(&l, &"f0".to_string());
    assert_eq!(prev_font_index(&l, &l[n]), 3);
    // from another font it does
    let n = next_font_index(&l, &"f2".to_string());
    assert_eq!(prev_font_index(&l, &l[n]), 2);
}

#[test]
fn predefined_theme_list_is_the_theme_crates() {
    let c = next_theme(&"Imperial".to_string());
    assert_eq!(c.themes.len(), 48);
    assert_eq!(c.themes[0], "Imperial");
    assert_eq!(c.themes[47], "Fallback");
    assert_eq!(c.name(), "Black&White");
    let p = prev_theme(&"Fallback".to_string());
    assert_eq!(p.name(), "Blackout");
    // every predefined theme comes back with F8 then Shift-F8
    for name in c.themes.iter() {
        let n = next_theme(name);
        let back = prev_theme(n.name());
        assert_eq!(back.name(), name);
    }
}

#[test]
fn predefined_theme_steps() {
    let c = next_theme(&"EverForest Light".to_string());
    assert_eq!(c.name(), "Gatekeeper Light");
    let c = prev_theme(&"EverForest Light".to_string());
    assert_eq!(c.name(), "Blossom Light");
    let c = next_theme(&"no such theme".to_string());
    assert_eq!(c.index, 1);
    assert_eq!(c.name(), &c.themes[1]);
    let c = prev_theme(&"Imperial".to_string());
    assert_eq!(c.index, c.themes.len() - 1);
}

// ---- screen

#[test]
fn file_list_width_follows_visibility() {
    assert_eq!(file_list_width(true), 20);
    assert_eq!(file_list_width(true), FILE_LIST_WIDTH);
    assert_eq!(file_list_width(false), 0);
}

#[test]
fn area_bottom_saturates() {
    assert_eq!(Area { x: 0, y: 3, width: 10, height: 7 }.bottom(), 10);
    assert_eq!(Area { x: 0, y: 65000, width: 10, height: 1000 }.bottom(), u16::MAX);
}

#[test]
fn auto_scroll_moves_below_visible_area() {
    let area = Area { x: 20, y: 1, width: 60, height: 10 };
    // cursor above the last row: jump to one below the last visible row
    assert_eq!(auto_scroll(Some((25, 3)), &area), (0, 11));
    // no cursor: start from the top row
    assert_eq!(auto_scroll(None, &area), (0, 11));
    // cursor on the last row: one further down
    assert_eq!(auto_scroll(Some((25, 10)), &area), (0, 11));
    // cursor beyond the area: one further down from it
    assert_eq!(auto_scroll(Some((0, 14)), &area), (0, 15));
}

#[test]
fn auto_scroll_large_rows_wrap_as_signed() {
    let area = Area { x: 0, y: 0, width: 1, height: 1 };
    assert_eq!(auto_scroll(Some((0, 40000)), &area), (0, (40000i32 - 65536 + 1) as i16));
}

#[test]
fn auto_scroll_range_check() {
    let area = Area { x: 0, y: 0, width: 1, height: 1 };
    assert!(auto_scroll_in_range(Some((0, 5)), &area));
    assert!(!auto_scroll_in_range(Some((0, u16::MAX)), &area));
    assert!(!auto_scroll_in_range(Some((0, 32767)), &area));
    let tall = Area { x: 0, y: 0, width: 1, height: 32768 };
    assert!(!auto_scroll_in_range(None, &tall));
    assert!(auto_scroll_in_range(Some((0, 32768)), &area));
}

// ---- input routing and commands

#[test]
fn early_actions() {
    assert_eq!(early_action(&Input::Resized), Some(EarlyAction::Redraw));
    assert_eq!(early_action(&Input::FocusGained), Some(EarlyAction::Reload));
    assert_eq!(early_action(&key(KeyCode::Char('q'), 0)), Some(EarlyAction::Quit));
    assert_eq!(early_action(&key(KeyCode::Char('q'), CONTROL)), Some(EarlyAction::Quit));
    assert_eq!(early_action(&key(KeyCode::Char('q'), SHIFT)), None);
    assert_eq!(early_action(&key(KeyCode::Char('x'), 0)), None);
    let release = Input::Key(Key { code: KeyCode::Char('q'), modifiers: 0, kind: KeyKind::Release });
    assert_eq!(early_action(&release), None);
    let repeat = Input::Key(Key { code: KeyCode::Char('q'), modifiers: 0, kind: KeyKind::Repeat });
    assert_eq!(early_action(&repeat), Some(EarlyAction::Quit));
    assert_eq!(early_action(&Input::Other), None);
}

#[test]
fn command_keys() {
    assert_eq!(command_for(&key(KeyCode::F(1), 0), false), Some(Command::StartStop));
    assert_eq!(command_for(&key(KeyCode::F(3), 0), false), Some(Command::FlipFiles));
    assert_eq!(command_for(&key(KeyCode::F(5), 0), false), Some(Command::Faster));
    assert_eq!(command_for(&key(KeyCode::F(6), 0), false), Some(Command::Slower));
    assert_eq!(command_for(&key(KeyCode::F(8), 0), false), Some(Command::NextTheme));
    assert_eq!(command_for(&key(KeyCode::F(8), SHIFT), false), Some(Command::PrevTheme));
    assert_eq!(command_for(&key(KeyCode::F(7), 0), false), None);
    assert_eq!(command_for(&key(KeyCode::F(7), 0), true), Some(Command::NextFont));
    assert_eq!(command_for(&key(KeyCode::F(7), SHIFT), true), Some(Command::PrevFont));
    assert_eq!(command_for(&key(KeyCode::F(1), CONTROL), false), None);
    assert_eq!(command_for(&key(KeyCode::F(2), 0), false), None);
    assert_eq!(command_for(&key(KeyCode::Char('a'), 0), false), None);
    assert_eq!(command_for(&Input::Resized, true), None);
}

#[test]
fn start_stop_toggles() {
    let c = Config::from_arg(None);
    assert_eq!(start_stop(false, &c), TimerOp::Start { millis: 1500 });
    assert_eq!(start_stop(true, &c), TimerOp::Stop);
}

#[test]
fn faster_and_slower_restart_timer() {
    let mut c = Config::from_arg(None);
    assert_eq!(faster(&mut c), TimerOp::Restart { millis: 1600 });
    assert_eq!(slower(&mut c), TimerOp::Restart { millis: 1500 });
    c.delay = 80;
    assert_eq!(slower(&mut c), TimerOp::Restart { millis: 80 });
}

#[test]
fn law_flip_files_twice_restores() {
    let mut show = true;
    assert_eq!(flip_files(&mut show), Focus::Text);
    assert!(!show);
    assert_eq!(flip_files(&mut show), Focus::Files);
    assert!(show);
}

#[test]
fn selections() {
    assert_eq!(initial_selection(3), Some(0));
    assert_eq!(initial_selection(0), None);
    assert_eq!(reload_files(Some(1), 4), Reload::Keep);
    assert_eq!(reload_files(None, 4), Reload::Reselect { select: Some(3) });
    assert_eq!(reload_files(None, 0), Reload::Reselect { select: None });
    assert_eq!(reload_flow(Reload::Keep), Flow::Continue);
    assert_eq!(reload_flow(Reload::Reselect { select: None }), Flow::Changed);
}

// ---- text

#[test]
fn event_steps_in_order() {
    assert_eq!(event_steps(&AppEvent::Rendered, false, false), vec![Step::RebuildFocus]);
    assert_eq!(event_steps(&AppEvent::Message, false, false), vec![Step::ShowMessage]);
    assert_eq!(event_steps(&AppEvent::Timer, true, false), vec![Step::AutoScroll]);
    assert_eq!(event_steps(&AppEvent::Timer, false, false), vec![]);
    assert_eq!(
        event_steps(&AppEvent::Input(key(KeyCode::Char('q'), 0)), false, false),
        vec![
            Step::Early(EarlyAction::Quit),
            Step::Dialog,
            Step::Focus,
            Step::FileList,
            Step::TextView
        ]
    );
    assert_eq!(
        event_steps(&AppEvent::Input(key(KeyCode::F(8), SHIFT)), false, false),
        vec![
            Step::Dialog,
            Step::Focus,
            Step::Command(Command::PrevTheme),
            Step::FileList,
            Step::TextView
        ]
    );
    assert_eq!(
        event_steps(&AppEvent::Input(Input::FocusGained), false, false),
        vec![
            Step::Early(EarlyAction::Reload),
            Step::Dialog,
            Step::Focus,
            Step::FileList,
            Step::TextView
        ]
    );
}

/// Runs the steps of an event with the given flows for the steps that
/// depend on widgets, as the event loop does.
fn run_event(steps: Vec<Step>, widget: &dyn Fn(Step) -> Flow) -> (Vec<Step>, Flow) {
    let mut flows = Vec::new();
    let mut taken = Vec::new();
    while let Some(step) = pending_step(&steps, &flows) {
        taken.push(step);
        flows.push(fixed_flow(step).unwrap_or_else(|| widget(step)));
    }
    (taken, first_consumed(&flows))
}

#[test]
fn event_results() {
    let cont = |_: Step| Flow::Continue;
    let (taken, r) = run_event(event_steps(&AppEvent::Rendered, false, false), &cont);
    assert_eq!(taken, vec![Step::RebuildFocus]);
    assert_eq!(r, Flow::Continue);
    let (_, r) = run_event(event_steps(&AppEvent::Message, false, false), &cont);
    assert_eq!(r, Flow::Changed);
    let (_, r) = run_event(event_steps(&AppEvent::Timer, true, false), &cont);
    assert_eq!(r, Flow::Changed);
    let (taken, r) = run_event(event_steps(&AppEvent::Timer, false, false), &cont);
    assert!(taken.is_empty());
    assert_eq!(r, Flow::Continue);
    // q quits before the dialog sees it, even when the dialog would take it
    let dialog_takes = |s: Step| if s == Step::Dialog { Flow::Changed } else { Flow::Continue };
    let (taken, r) = run_event(event_steps(&AppEvent::Input(key(KeyCode::Char('q'), 0)), false, false), &dialog_takes);
    assert_eq!(taken, vec![Step::Early(EarlyAction::Quit)]);
    assert_eq!(r, Flow::Quit);
    let (_, r) = run_event(event_steps(&AppEvent::Input(Input::Resized), false, false), &cont);
    assert_eq!(r, Flow::Changed);
    // an open dialog that takes a command key ends the event before the command
    let (taken, r) = run_event(event_steps(&AppEvent::Input(key(KeyCode::F(1), 0)), false, false), &dialog_takes);
    assert_eq!(taken, vec![Step::Dialog]);
    assert_eq!(r, Flow::Changed);
    // a command key runs the command and redraws
    let (taken, r) = run_event(event_steps(&AppEvent::Input(key(KeyCode::F(3), 0)), false, false), &cont);
    assert_eq!(taken, vec![Step::Dialog, Step::Focus, Step::Command(Command::FlipFiles)]);
    assert_eq!(r, Flow::Changed);
    // focus gained: a reload that keeps the selection goes on to the widgets
    let (taken, r) = run_event(event_steps(&AppEvent::Input(Input::FocusGained), false, false), &cont);
    assert_eq!(taken.len(), 5);
    assert_eq!(r, Flow::Continue);
    let reselect = |s: Step| if s == Step::Early(EarlyAction::Reload) { Flow::Changed } else { Flow::Continue };
    let (taken, r) = run_event(event_steps(&AppEvent::Input(Input::FocusGained), false, false), &reselect);
    assert_eq!(taken, vec![Step::Early(EarlyAction::Reload)]);
    assert_eq!(r, Flow::Changed);
}

#[test]
fn widget_flows() {
    assert_eq!(outcome_flow(WidgetOutcome::Continue), Flow::Continue);
    assert_eq!(outcome_flow(WidgetOutcome::Unchanged), Flow::Unchanged);
    assert_eq!(outcome_flow(WidgetOutcome::Changed), Flow::Changed);
    assert_eq!(dialog_flow(false, WidgetOutcome::Changed), Flow::Continue);
    assert_eq!(dialog_flow(true, WidgetOutcome::Unchanged), Flow::Unchanged);
    assert_eq!(file_list_step(WidgetOutcome::Changed), (true, Flow::Changed));
    assert_eq!(file_list_step(WidgetOutcome::Unchanged), (false, Flow::Unchanged));
    assert_eq!(file_list_step(WidgetOutcome::Continue), (false, Flow::Continue));
    assert_eq!(fixed_flow(Step::Dialog), None);
    assert_eq!(fixed_flow(Step::Focus), Some(Flow::Continue));
    assert_eq!(fixed_flow(Step::Early(EarlyAction::Quit)), Some(Flow::Quit));
    assert_eq!(first_consumed(&vec![]), Flow::Continue);
    assert_eq!(first_consumed(&vec![Flow::Continue, Flow::Unchanged, Flow::Changed]), Flow::Unchanged);
}

#[test]
fn show_file_reads_only_valid_rows() {
    assert_eq!(show_file(Some(1), 3), ShowFile::Read { row: 1 });
    assert_eq!(show_file(Some(3), 3), ShowFile::Clear);
    assert_eq!(show_file(None, 3), ShowFile::Clear);
}

#[test]
fn checked_selection_filters_by_rows() {
    assert_eq!(checked_selection(Some(2), 3), Some(2));
    assert_eq!(checked_selection(Some(3), 3), None);
    assert_eq!(checked_selection(None, 3), None);
}

#[test]
fn reflow_white_space_is_unicode_white_space() {
    for c in ['\t', '\u{0b}', '\u{0c}', ' ', '\u{85}', '\u{a0}', '\u{1680}', '\u{2000}', '\u{200a}', '\u{2028}', '\u{2029}', '\u{202f}', '\u{205f}', '\u{3000}'] {
        assert!(c.is_whitespace());
        assert_eq!(reflow_text(&format!("{}w{}", c, c)), "w ");
    }
    for c in ['\u{200b}', '\u{180e}', 'x', '\u{feff}'] {
        assert!(!c.is_whitespace());
        assert_eq!(reflow_text(&format!("{}w", c)), format!("{}w ", c));
    }
}

#[test]
fn file_text_replaces_invalid_bytes() {
    assert_eq!(file_text(&b"abc".to_vec()), "abc");
    assert_eq!(file_text(&vec![b'a', 0xff, b'b']), "a\u{FFFD}b");
    assert_eq!(file_text(&Vec::new()), "");
}

#[test]
fn reflow_joins_lines_into_paragraphs() {
    let t = "Hello\n  world  \n\nNext\r\npara".to_string();
    assert_eq!(reflow_text(&t), "Hello world \n\nNext para ");
}

#[test]
fn law_final_line_feed_is_optional() {
    for t in ["one\ntwo", "para\n\nnext", "  x  ", "a\r\nb"] {
        let with = format!("{}\n", t);
        assert_eq!(reflow_text(&with.to_string()), reflow_text(&t.to_string()));
    }
    // where the text already ends in a line break, it is not
    assert_ne!(reflow_text(&"a\n\n".to_string()), reflow_text(&"a\n".to_string()));
}

#[test]
fn reflow_final_line_feed_and_unicode_space() {
    assert_eq!(reflow_text(&"a\n".to_string()), "a ");
    assert_eq!(reflow_text(&"\u{3000}b\t\n\n\n".to_string()), "b \n\n\n\n");
    assert_eq!(reflow_text(&"".to_string()), "");
    assert_eq!(reflow_text(&"x\r".to_string()), "x ");
    assert_eq!(reflow_text(&"  \n".to_string()), " ");
}
