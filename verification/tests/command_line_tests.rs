use pf_sandbox::command_line::{CommandKeys, CommandLine, OUTPUT_LINES};
use pf_sandbox::os_input::TextChar;

fn keys() -> CommandKeys {
    CommandKeys {
        toggle: false,
        submit: false,
        home: false,
        end: false,
        left: false,
        right: false,
        up: false,
        down: false,
    }
}

fn typed(s: &str) -> Vec<TextChar> {
    s.chars().map(TextChar::Char).collect()
}

#[test]
fn closed_until_toggled() {
    let mut c = CommandLine::new();
    assert!(!c.block());
    assert!(c.output().is_empty());
    assert_eq!(c.step(&keys(), &typed("ab")), None);
    assert!(c.output().is_empty());
    let mut k = keys();
    k.toggle = true;
    assert_eq!(c.step(&k, &typed("ignored")), None);
    assert!(c.block());
    assert_eq!(c.output(), vec!["→■".to_string()]);
}

#[test]
fn typing_editing_and_submitting() {
    let mut c = CommandLine::new();
    let mut k = keys();
    k.toggle = true;
    c.step(&k, &[]);

    c.step(&keys(), &typed("ab"));
    assert_eq!(c.output(), vec!["→ab■".to_string()]);

    let mut k = keys();
    k.left = true;
    c.step(&k, &[]);
    assert_eq!(c.output(), vec!["→a■b".to_string()]);
    c.step(&keys(), &typed("x"));
    assert_eq!(c.output(), vec!["→ax■b".to_string()]);
    c.step(&keys(), &[TextChar::Back]);
    assert_eq!(c.output(), vec!["→a■b".to_string()]);
    let mut k = keys();
    k.home = true;
    c.step(&k, &[]);
    assert_eq!(c.output(), vec!["→■ab".to_string()]);
    let mut k = keys();
    k.end = true;
    c.step(&k, &typed("  "));
    assert_eq!(c.output(), vec!["→  ab■".to_string()]);
    c.step(&k, &[]);

    let mut k = keys();
    k.submit = true;
    let run = c.step(&k, &[]);
    assert_eq!(run, Some("  ab".to_string()));
    c.add_result("one\ntwo");
    assert_eq!(
        c.output(),
        vec!["→■".to_string(), "two".to_string(), "one".to_string(), "→  ab".to_string()]
    );

    let mut k = keys();
    k.up = true;
    c.step(&k, &[]);
    assert_eq!(c.output()[0], "→  ab■");
    c.step(&k, &[]);
    assert_eq!(c.output()[0], "→  ab■");
    let mut k = keys();
    k.down = true;
    c.step(&k, &[]);
    assert_eq!(c.output()[0], "→■");
}

#[test]
fn output_keeps_the_latest_lines() {
    let mut c = CommandLine::new();
    for i in 0..(OUTPUT_LINES + 5) {
        c.output_add(i.to_string());
    }
    let mut k = keys();
    k.toggle = true;
    c.step(&k, &[]);
    let out = c.output();
    assert_eq!(out.len(), OUTPUT_LINES + 1);
    assert_eq!(out[1], (OUTPUT_LINES + 4).to_string());
    assert_eq!(out[OUTPUT_LINES], "5");
}

#[test]
fn submitted_commands_run_on_the_game_data() {
    let mut data: Vec<usize> = vec![5, 6];
    let mut c = CommandLine::new();
    let mut k = keys();
    k.toggle = true;
    c.step_with(&k, &[], &mut data);
    let mut submit = keys();
    submit.submit = true;
    for command in ["length get", "length set 4", "x get", "x"] {
        c.step_with(&keys(), &typed(command), &mut data);
        c.step_with(&submit, &[], &mut data);
    }
    assert_eq!(data, vec![5, 6]);
    assert_eq!(
        c.output(),
        vec![
            "→■".to_string(),
            "No action".to_string(),
            "→x".to_string(),
            "List cannot 'ChainProperty(\"x\")'".to_string(),
            "→x get".to_string(),
            "".to_string(),
            "→length set 4".to_string(),
            "2".to_string(),
            "→length get".to_string(),
        ]
    );
}
