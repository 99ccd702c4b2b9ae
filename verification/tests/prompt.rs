use crab_shell_core::prompt::{frame_prompt, prompt_handler};

#[test]
fn prompt_frame() {
    assert_eq!(frame_prompt("me", "box", "/tmp"), "[me@box /tmp] ");
    assert_eq!(frame_prompt("", "", ""), "[@ ] ");
}

#[test]
fn prompt_colours() {
    colored::control::set_override(true);
    assert_eq!(
        prompt_handler("me", "box", "/tmp"),
        "[\u{1b}[32mme\u{1b}[0m@\u{1b}[34mbox\u{1b}[0m \u{1b}[94m/tmp\u{1b}[0m] "
    );
    colored::control::set_override(false);
    assert_eq!(prompt_handler("me", "box", "/tmp"), "[me@box /tmp] ");
    colored::control::unset_override();
}
