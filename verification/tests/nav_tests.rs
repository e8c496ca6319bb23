use textty::error::Error;
use textty::nav::{Key, Mode, NavAction, NavigationState};
use textty::texttv::{
    check_page_range, select_page, PageNumber, PageResponse, MAX_PAGE_NR, MIN_PAGE_NR,
};

fn envelope(num: u16, next: u16, prev: u16, content: Vec<String>) -> PageResponse {
    PageResponse {
        num,
        title: String::from("title"),
        content,
        content_plain: None,
        next_page: next,
        prev_page: prev,
        date_updated_unix: 1700000000,
        permalink: String::from("https://example.invalid/p"),
        id: 1,
        breadcrumbs: Vec::new(),
    }
}

#[test]
fn page_number_accepts_exactly_the_valid_interval() {
    assert!(matches!(
        PageNumber::try_from(99),
        Err(Error::InvalidPageNumber(99))
    ));
    assert_eq!(PageNumber::try_from(100).unwrap().get(), 100);
    assert_eq!(PageNumber::try_from(450).unwrap().get(), 450);
    assert_eq!(PageNumber::try_from(801).unwrap().get(), 801);
    assert!(matches!(
        PageNumber::try_from(802),
        Err(Error::InvalidPageNumber(802))
    ));
    assert!(matches!(
        PageNumber::try_from(0),
        Err(Error::InvalidPageNumber(0))
    ));
    assert!(matches!(
        PageNumber::try_from(u16::MAX),
        Err(Error::InvalidPageNumber(u16::MAX))
    ));
}

#[test]
fn page_range_order_is_validated() {
    let lo = PageNumber::try_from(100).unwrap();
    let hi = PageNumber::try_from(200).unwrap();
    assert!(check_page_range(lo, hi).is_ok());
    assert!(check_page_range(lo, lo).is_ok());
    assert!(matches!(
        check_page_range(hi, lo),
        Err(Error::InvalidPageRange { lo: 200, hi: 100 })
    ));
}

#[test]
fn scroll_clamps_at_both_ends() {
    let mut nav = NavigationState::new();
    nav.page_set = vec![Vec::new(), Vec::new(), Vec::new()];
    nav.page_index = 0;
    for _ in 0..10 {
        nav.scroll_prev();
        assert_eq!(nav.page_index, 0);
    }
    for _ in 0..10 {
        nav.scroll_next();
        assert!(nav.page_index < nav.page_set.len());
    }
    assert_eq!(nav.page_index, 2);
    nav.scroll_prev();
    assert_eq!(nav.page_index, 1);
}

#[test]
fn scroll_on_empty_page_set_stays_at_zero() {
    let mut nav = NavigationState::new();
    for _ in 0..5 {
        nav.scroll_next();
        nav.scroll_prev();
        assert_eq!(nav.page_index, 0);
    }
}

#[test]
fn normal_keys_request_the_right_fetches() {
    let mut nav = NavigationState::new();
    nav.next_nr = 101;
    nav.prev_nr = 100;
    nav.page_nr = 100;
    assert_eq!(
        nav.on_key_event(Key::Right).unwrap(),
        NavAction::Fetch(101)
    );
    assert_eq!(
        nav.on_key_event(Key::Char('l')).unwrap(),
        NavAction::Fetch(101)
    );
    assert_eq!(nav.on_key_event(Key::Left).unwrap(), NavAction::Fetch(100));
    assert_eq!(
        nav.on_key_event(Key::Char('h')).unwrap(),
        NavAction::Fetch(100)
    );
    assert_eq!(
        nav.on_key_event(Key::Char('r')).unwrap(),
        NavAction::Fetch(100)
    );
}

#[test]
fn digit_keys_jump_to_hundred_blocks() {
    let mut nav = NavigationState::new();
    assert_eq!(
        nav.on_key_event(Key::Char('1')).unwrap(),
        NavAction::Fetch(100)
    );
    assert_eq!(
        nav.on_key_event(Key::Char('5')).unwrap(),
        NavAction::Fetch(500)
    );
    assert_eq!(
        nav.on_key_event(Key::Char('8')).unwrap(),
        NavAction::Fetch(800)
    );
    assert_eq!(nav.on_key_event(Key::Char('0')).unwrap(), NavAction::Stay);
    assert_eq!(nav.on_key_event(Key::Char('9')).unwrap(), NavAction::Stay);
}

#[test]
fn quit_key_sets_the_exit_flag() {
    let mut nav = NavigationState::new();
    assert!(!nav.exit);
    assert_eq!(nav.on_key_event(Key::Char('q')).unwrap(), NavAction::Stay);
    assert!(nav.exit);
}

#[test]
fn help_mode_only_listens_to_escape() {
    let mut nav = NavigationState::new();
    nav.on_key_event(Key::Char('?')).unwrap();
    assert_eq!(nav.mode, Mode::Help);
    assert_eq!(nav.on_key_event(Key::Char('q')).unwrap(), NavAction::Stay);
    assert!(!nav.exit);
    assert_eq!(nav.mode, Mode::Help);
    nav.on_key_event(Key::Esc).unwrap();
    assert_eq!(nav.mode, Mode::Normal);
}

#[test]
fn manual_entry_low_value_clamps_to_min() {
    let mut nav = NavigationState::new();
    nav.page_nr = 300;
    nav.on_key_event(Key::Char(':')).unwrap();
    assert_eq!(nav.mode, Mode::Input);
    nav.on_key_event(Key::Char('0')).unwrap();
    nav.on_key_event(Key::Char('5')).unwrap();
    nav.on_key_event(Key::Char('0')).unwrap();
    let action = nav.on_key_event(Key::Enter).unwrap();
    assert_eq!(action, NavAction::Fetch(MIN_PAGE_NR));
    assert_eq!(nav.mode, Mode::Normal);
    assert!(nav.input_buffer.is_empty());
    // The page number itself changes only when the fetch succeeds.
    assert_eq!(nav.page_nr, 300);
}

#[test]
fn manual_entry_high_value_clamps_to_max() {
    let mut nav = NavigationState::new();
    nav.on_key_event(Key::Char(':')).unwrap();
    for d in ['9', '9', '9'] {
        nav.on_key_event(Key::Char(d)).unwrap();
    }
    assert_eq!(
        nav.on_key_event(Key::Enter).unwrap(),
        NavAction::Fetch(MAX_PAGE_NR)
    );
}

#[test]
fn manual_entry_in_range_is_kept_exactly() {
    let mut nav = NavigationState::new();
    nav.on_key_event(Key::Char(':')).unwrap();
    for d in ['1', '5', '0'] {
        nav.on_key_event(Key::Char(d)).unwrap();
    }
    assert_eq!(
        nav.on_key_event(Key::Enter).unwrap(),
        NavAction::Fetch(150)
    );
}

#[test]
fn manual_entry_buffer_caps_at_three_digits() {
    let mut nav = NavigationState::new();
    nav.on_key_event(Key::Char(':')).unwrap();
    for d in ['1', '2', '3', '4', '5'] {
        nav.on_key_event(Key::Char(d)).unwrap();
    }
    assert_eq!(nav.input_buffer, vec!['1', '2', '3']);
    assert_eq!(
        nav.on_key_event(Key::Enter).unwrap(),
        NavAction::Fetch(123)
    );
}

#[test]
fn manual_entry_backspace_and_nondigits() {
    let mut nav = NavigationState::new();
    nav.on_key_event(Key::Char(':')).unwrap();
    nav.on_key_event(Key::Char('7')).unwrap();
    nav.on_key_event(Key::Char('x')).unwrap();
    assert_eq!(nav.input_buffer, vec!['7']);
    nav.on_key_event(Key::Backspace).unwrap();
    assert!(nav.input_buffer.is_empty());
    nav.on_key_event(Key::Backspace).unwrap();
    assert!(nav.input_buffer.is_empty());
}

#[test]
fn manual_entry_empty_submit_is_an_error() {
    let mut nav = NavigationState::new();
    nav.on_key_event(Key::Char(':')).unwrap();
    assert!(matches!(
        nav.on_key_event(Key::Enter),
        Err(Error::MalformedInput)
    ));
    assert_eq!(nav.mode, Mode::Input);
}

#[test]
fn manual_entry_escape_discards_the_buffer() {
    let mut nav = NavigationState::new();
    nav.on_key_event(Key::Char(':')).unwrap();
    nav.on_key_event(Key::Char('4')).unwrap();
    assert_eq!(nav.on_key_event(Key::Esc).unwrap(), NavAction::Stay);
    assert_eq!(nav.mode, Mode::Normal);
    assert!(nav.input_buffer.is_empty());
}

#[test]
fn apply_envelope_replaces_the_page_set() {
    let mut nav = NavigationState::new();
    nav.page_index = 0;
    let resp = envelope(
        150,
        151,
        149,
        vec![
            String::from("<span class=\"line\"><span class=\"bgB\">a</span></span>"),
            String::from("<span class=\"line\"><span class=\"bgR W\">b</span></span>"),
        ],
    );
    let nr = PageNumber::try_from(150).unwrap();
    nav.apply_envelope(nr, &resp).unwrap();
    assert_eq!(nav.page_nr, 150);
    assert_eq!(nav.next_nr, 151);
    assert_eq!(nav.prev_nr, 149);
    assert_eq!(nav.updated_unix, 1700000000);
    assert_eq!(nav.page_index, 0);
    assert_eq!(nav.page_set.len(), 2);
}

#[test]
fn apply_envelope_failure_changes_nothing() {
    let mut nav = NavigationState::new();
    let good = envelope(
        200,
        201,
        199,
        vec![String::from(
            "<span class=\"line\"><span class=\"bgB\">a</span></span>",
        )],
    );
    let nr = PageNumber::try_from(200).unwrap();
    nav.apply_envelope(nr, &good).unwrap();

    let bad = envelope(
        300,
        301,
        299,
        vec![String::from(
            "<span class=\"line\"><span class=\"bgQ\">a</span></span>",
        )],
    );
    let nr = PageNumber::try_from(300).unwrap();
    assert!(matches!(
        nav.apply_envelope(nr, &bad),
        Err(Error::UnknownBackground(_))
    ));
    assert_eq!(nav.page_nr, 200);
    assert_eq!(nav.next_nr, 201);
    assert_eq!(nav.prev_nr, 199);
    assert_eq!(nav.page_set.len(), 1);
}

#[test]
fn manual_entry_scenario_from_page_300() {
    // ':', '5', '0', enter while at page 300: the requested 50 clamps to
    // 100, and the fetched envelope takes effect.
    let mut nav = NavigationState::new();
    let start = envelope(300, 301, 299, Vec::new());
    nav.apply_envelope(PageNumber::try_from(300).unwrap(), &start)
        .unwrap();
    assert_eq!(nav.page_nr, 300);

    nav.on_key_event(Key::Char(':')).unwrap();
    nav.on_key_event(Key::Char('5')).unwrap();
    nav.on_key_event(Key::Char('0')).unwrap();
    let action = nav.on_key_event(Key::Enter).unwrap();
    let target = match action {
        NavAction::Fetch(nr) => nr,
        NavAction::Stay => panic!("the submit must request a fetch"),
    };
    assert_eq!(target, 100);

    let fetched = envelope(
        100,
        101,
        801,
        vec![String::from(
            "<span class=\"line\"><span class=\"bgB\">hem</span></span>",
        )],
    );
    let nr = PageNumber::try_from(target).unwrap();
    nav.apply_envelope(nr, &fetched).unwrap();
    assert_eq!(nav.page_nr, 100);
    assert_eq!(nav.page_index, 0);
    assert_eq!(nav.page_set.len(), 1);
}

#[test]
fn select_page_takes_the_last_envelope() {
    let pages = vec![envelope(100, 101, 801, Vec::new()), envelope(101, 102, 100, Vec::new())];
    let chosen = select_page(pages, 100).unwrap();
    assert_eq!(chosen.num, 101);
    assert!(matches!(
        select_page(Vec::new(), 100),
        Err(Error::InvalidPageNumber(100))
    ));
}

#[test]
fn plain_text_concatenates_subpages() {
    let mut resp = envelope(100, 101, 801, Vec::new());
    resp.content_plain = Some(vec![String::from("first "), String::from("second")]);
    assert_eq!(resp.plain_text(), "first second");
    resp.content_plain = None;
    assert_eq!(resp.plain_text(), "");
}
