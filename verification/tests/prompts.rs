use inquire::answer::{Answer, OptionAnswer};
use inquire::backend::fake_backend;
use inquire::confirm::ConfirmPrompt;
use inquire::custom_type::CustomIntPrompt;
use inquire::error::PromptError;
use inquire::key::Key;
use inquire::multiselect::MultiSelectPrompt;
use inquire::prompt::{Outcome, Prompt, Step};
use inquire::select::SelectPrompt;
use inquire::style::RenderConfig;
use inquire::text::TextPrompt;
use inquire::validator::Validator;

fn options() -> Vec<String> {
    vec!["red".to_string(), "green".to_string(), "blue".to_string()]
}

#[test]
fn cancel_releases_terminal_exactly_once() {
    let mut backend = fake_backend(vec![Key::Char('a'), Key::Escape]);
    let mut prompt = Prompt::Text(TextPrompt::new("name?"));
    let result = prompt.prompt_with(&mut backend);
    assert_eq!(result, Ok(Outcome::Cancelled));
    assert_eq!(backend.times_released(), 1);
    assert!(!backend.is_raw_mode());
}

#[test]
fn end_of_input_is_fatal_and_still_releases() {
    let mut backend = fake_backend(vec![Key::Char('a')]);
    let mut prompt = Prompt::Text(TextPrompt::new("name?"));
    let result = prompt.prompt_with(&mut backend);
    assert_eq!(result, Err(PromptError::EndOfInput));
    assert_eq!(backend.times_released(), 1);
    assert!(!backend.is_raw_mode());
}

#[test]
fn text_submits_typed_input() {
    let mut backend = fake_backend(vec![
        Key::Char('h'),
        Key::Char('i'),
        Key::Char('x'),
        Key::Backspace,
        Key::Enter,
    ]);
    let mut prompt = Prompt::Text(TextPrompt::new("say"));
    let result = prompt.prompt_with(&mut backend);
    assert_eq!(
        result,
        Ok(Outcome::Submitted(Answer::Text("hi".to_string())))
    );
}

#[test]
fn select_down_down_enter_submits_blue() {
    let mut backend = fake_backend(vec![Key::Down, Key::Down, Key::Enter]);
    let select = SelectPrompt::new("color?", options())
        .unwrap()
        .with_page_size(2);
    let mut prompt = Prompt::Select(select);
    let result = prompt.prompt_with(&mut backend);
    assert_eq!(
        result,
        Ok(Outcome::Submitted(Answer::Selected(OptionAnswer {
            index: 2,
            value: "blue".to_string(),
        })))
    );
}

#[test]
fn multiselect_space_down_space_enter_submits_in_original_order() {
    let mut backend = fake_backend(vec![
        Key::Char(' '),
        Key::Down,
        Key::Char(' '),
        Key::Enter,
    ]);
    let multi = MultiSelectPrompt::new("colors?", options()).unwrap();
    let mut prompt = Prompt::MultiSelect(multi);
    let result = prompt.prompt_with(&mut backend);
    assert_eq!(
        result,
        Ok(Outcome::Submitted(Answer::MultiSelected(vec![
            OptionAnswer { index: 0, value: "red".to_string() },
            OptionAnswer { index: 1, value: "green".to_string() },
        ])))
    );
}

#[test]
fn custom_type_parse_failure_keeps_prompting_until_corrected() {
    // "12a" is rejected; deleting the trailing character makes it parse.
    let mut backend = fake_backend(vec![Key::Enter, Key::Backspace, Key::Enter]);
    let custom = CustomIntPrompt::new("number?").with_initial("12a");
    let mut prompt = Prompt::CustomInt(custom);
    let result = prompt.prompt_with(&mut backend);
    assert_eq!(result, Ok(Outcome::Submitted(Answer::Int(12))));
}

#[test]
fn custom_type_parse_failure_renders_error_line() {
    // The run starves after the failed submission, so the last frame is
    // still on the surface: the prompt line plus exactly one error line.
    let mut backend = fake_backend(vec![Key::Enter]);
    let custom = CustomIntPrompt::new("number?").with_initial("12a");
    let mut prompt = Prompt::CustomInt(custom);
    let result = prompt.prompt_with(&mut backend);
    assert_eq!(result, Err(PromptError::EndOfInput));
    let screen = backend.screen();
    assert_eq!(screen.len(), 2);
    let error_text: String = screen[1][1].text.iter().collect();
    assert_eq!(error_text, "The input is not a valid integer");
}

#[test]
fn validator_failure_uses_the_same_error_line() {
    // A validator failure is drawn through the identical path as the parse
    // failure: same frame shape, same dedicated line, only the message
    // differs.
    let mut backend = fake_backend(vec![Key::Enter]);
    let custom = CustomIntPrompt::new("number?")
        .with_initial("123")
        .with_validators(vec![Validator::MinLength(5, "too short".to_string())]);
    let mut prompt = Prompt::CustomInt(custom);
    let result = prompt.prompt_with(&mut backend);
    assert_eq!(result, Err(PromptError::EndOfInput));
    let screen = backend.screen();
    assert_eq!(screen.len(), 2);
    let error_text: String = screen[1][1].text.iter().collect();
    assert_eq!(error_text, "too short");
}

#[test]
fn confirm_enter_returns_default() {
    let mut backend = fake_backend(vec![Key::Enter]);
    let mut prompt = Prompt::Confirm(ConfirmPrompt::new("proceed?", true));
    let result = prompt.prompt_with(&mut backend);
    assert_eq!(result, Ok(Outcome::Submitted(Answer::Confirmation(true))));
}

#[test]
fn confirm_explicit_no_overrides_default() {
    let mut backend = fake_backend(vec![Key::Char('n'), Key::Enter]);
    let mut prompt = Prompt::Confirm(ConfirmPrompt::new("proceed?", true));
    let result = prompt.prompt_with(&mut backend);
    assert_eq!(result, Ok(Outcome::Submitted(Answer::Confirmation(false))));
}

#[test]
fn confirm_rejects_garbage_then_accepts() {
    let mut backend = fake_backend(vec![
        Key::Char('x'),
        Key::Enter,
        Key::Backspace,
        Key::Char('y'),
        Key::Enter,
    ]);
    let mut prompt = Prompt::Confirm(ConfirmPrompt::new("proceed?", false));
    let result = prompt.prompt_with(&mut backend);
    assert_eq!(result, Ok(Outcome::Submitted(Answer::Confirmation(true))));
}

#[test]
fn validator_chain_first_failure_wins() {
    let mut a_first = TextPrompt::new("t").with_validators(vec![
        Validator::Required("answer required".to_string()),
        Validator::MinLength(2, "answer too short".to_string()),
    ]);
    let step = a_first.handle_key(Key::Enter);
    assert!(matches!(step, Step::Stay));
    assert_eq!(a_first.error, Some("answer required".to_string()));

    let mut b_first = TextPrompt::new("t").with_validators(vec![
        Validator::MinLength(2, "answer too short".to_string()),
        Validator::Required("answer required".to_string()),
    ]);
    let step = b_first.handle_key(Key::Enter);
    assert!(matches!(step, Step::Stay));
    assert_eq!(b_first.error, Some("answer too short".to_string()));
}

#[test]
fn empty_validator_chain_always_allows_submission() {
    let mut backend = fake_backend(vec![Key::Enter]);
    let mut prompt = Prompt::Text(TextPrompt::new("t"));
    let result = prompt.prompt_with(&mut backend);
    assert_eq!(result, Ok(Outcome::Submitted(Answer::Text(String::new()))));
}

#[test]
fn select_cursor_wraps_both_ways() {
    let mut p = SelectPrompt::new("c", options()).unwrap();
    assert_eq!(p.cursor, 0);
    p.handle_key(Key::Up);
    assert_eq!(p.cursor, 2);
    p.handle_key(Key::Down);
    assert_eq!(p.cursor, 0);
}

#[test]
fn filtering_preserves_original_order_and_indices() {
    let opts = vec![
        "apple".to_string(),
        "banana".to_string(),
        "cantaloupe".to_string(),
        "Banana split".to_string(),
    ];
    let mut p = SelectPrompt::new("fruit?", opts).unwrap();
    p.handle_key(Key::Char('A'));
    p.handle_key(Key::Char('n'));
    // Case-insensitive substring match; original indices stay increasing.
    assert_eq!(p.view, vec![1, 2, 3]);
    assert_eq!(p.cursor, 0);
    p.handle_key(Key::Backspace);
    p.handle_key(Key::Backspace);
    assert_eq!(p.view, vec![0, 1, 2, 3]);
}

#[test]
fn select_with_no_matching_option_rejects_submission() {
    let mut p = SelectPrompt::new("c", options()).unwrap();
    p.handle_key(Key::Char('z'));
    assert_eq!(p.view, Vec::<usize>::new());
    let step = p.handle_key(Key::Enter);
    assert!(matches!(step, Step::Stay));
    assert_eq!(p.error, Some("No options available".to_string()));
}

#[test]
fn select_empty_option_list_is_a_configuration_error() {
    let r = SelectPrompt::new("c", Vec::new());
    assert_eq!(r.err(), Some(PromptError::InvalidConfiguration));
    let r = MultiSelectPrompt::new("c", Vec::new());
    assert_eq!(r.err(), Some(PromptError::InvalidConfiguration));
}

#[test]
fn multiselect_toggle_twice_restores_checked_set() {
    let mut p = MultiSelectPrompt::new("c", options()).unwrap();
    p.handle_key(Key::Down);
    p.handle_key(Key::Char(' '));
    assert_eq!(p.checked, vec![false, true, false]);
    p.handle_key(Key::Char(' '));
    assert_eq!(p.checked, vec![false, false, false]);
}

#[test]
fn multiselect_select_all_and_clear_all_respect_filter() {
    let opts = vec![
        "red".to_string(),
        "rust".to_string(),
        "blue".to_string(),
    ];
    let mut p = MultiSelectPrompt::new("c", opts).unwrap();
    p.handle_key(Key::Char('r'));
    p.handle_key(Key::Right);
    assert_eq!(p.checked, vec![true, true, false]);
    p.handle_key(Key::Backspace);
    p.handle_key(Key::Char('u'));
    p.handle_key(Key::Left);
    // Only "rust" and "blue" match "u"; clearing leaves "red" checked.
    assert_eq!(p.checked, vec![true, false, false]);
}

#[test]
fn multiselect_minimum_count_is_enforced() {
    let mut backend = fake_backend(vec![Key::Enter, Key::Char(' '), Key::Enter]);
    let multi = MultiSelectPrompt::new("c", options()).unwrap().with_min(1);
    let mut prompt = Prompt::MultiSelect(multi);
    let result = prompt.prompt_with(&mut backend);
    assert_eq!(
        result,
        Ok(Outcome::Submitted(Answer::MultiSelected(vec![OptionAnswer {
            index: 0,
            value: "red".to_string(),
        }])))
    );
}

#[test]
fn multiselect_maximum_count_is_enforced() {
    let mut p = MultiSelectPrompt::new("c", options()).unwrap().with_max(1);
    p.handle_key(Key::Char(' '));
    p.handle_key(Key::Down);
    p.handle_key(Key::Char(' '));
    let step = p.handle_key(Key::Enter);
    assert!(matches!(step, Step::Stay));
    assert_eq!(p.error, Some("Too many options selected".to_string()));
}

#[test]
fn pattern_validator_calls_into_the_regex_engine() {
    // A wrapper that handed its input back unchanged could not tell these
    // two cases apart.
    let mut passes = TextPrompt::new("t")
        .with_initial("aaa")
        .with_validators(vec![Validator::Pattern(
            "^a+$".to_string(),
            "letters a only".to_string(),
        )]);
    let step = passes.handle_key(Key::Enter);
    assert!(matches!(step, Step::Submit(_)));

    let mut fails = TextPrompt::new("t")
        .with_initial("aab")
        .with_validators(vec![Validator::Pattern(
            "^a+$".to_string(),
            "letters a only".to_string(),
        )]);
    let step = fails.handle_key(Key::Enter);
    assert!(matches!(step, Step::Stay));
    assert_eq!(fails.error, Some("letters a only".to_string()));
}

#[test]
fn invalid_pattern_fails_validation() {
    let mut p = TextPrompt::new("t")
        .with_initial("anything")
        .with_validators(vec![Validator::Pattern(
            "(".to_string(),
            "bad pattern".to_string(),
        )]);
    let step = p.handle_key(Key::Enter);
    assert!(matches!(step, Step::Stay));
    assert_eq!(p.error, Some("bad pattern".to_string()));
}

#[test]
fn password_never_echoes_typed_characters() {
    let p = TextPrompt::new("secret?").masked().with_initial("hunter2");
    let lines = p.render_lines(&RenderConfig::default());
    let shown: String = lines[0][3].text.iter().collect();
    assert_eq!(shown, "*******");
}

#[test]
fn render_clears_exactly_the_previous_frame() {
    // Two re-renders of a one-line frame leave one line, not three.
    let mut backend = fake_backend(vec![Key::Char('a'), Key::Char('b'), Key::Escape]);
    let mut prompt = Prompt::Text(TextPrompt::new("t"));
    let result = prompt.prompt_with(&mut backend);
    assert_eq!(result, Ok(Outcome::Cancelled));
    let screen = backend.screen();
    assert_eq!(screen.len(), 1);
    let typed: String = screen[0][3].text.iter().collect();
    assert_eq!(typed, "ab");
}

#[test]
fn action_menu_returns_the_chosen_label() {
    let labels = vec!["overwrite".to_string(), "skip".to_string()];
    let menu = inquire::action::action_menu("conflict:", labels).unwrap();
    let mut backend = fake_backend(vec![Key::Down, Key::Enter]);
    let mut prompt = Prompt::Select(menu);
    let result = prompt.prompt_with(&mut backend);
    assert_eq!(
        result,
        Ok(Outcome::Submitted(Answer::Selected(OptionAnswer {
            index: 1,
            value: "skip".to_string(),
        })))
    );
}

#[test]
fn select_renders_only_one_page_of_rows() {
    let mut backend = fake_backend(Vec::new());
    let select = SelectPrompt::new("color?", options())
        .unwrap()
        .with_page_size(2);
    let mut prompt = Prompt::Select(select);
    let result = prompt.prompt_with(&mut backend);
    assert_eq!(result, Err(PromptError::EndOfInput));
    let screen = backend.screen();
    // Header plus two visible rows of the three options.
    assert_eq!(screen.len(), 3);
    let first: String = screen[1][1].text.iter().collect();
    let second: String = screen[2][1].text.iter().collect();
    assert_eq!(first, "red");
    assert_eq!(second, "green");
    let marker: String = screen[1][0].text.iter().collect();
    assert_eq!(marker, "> ");
}
