use pf_sandbox::node::{Node, NodeRunner, NodeToken};

fn tokens(command: &str) -> Vec<NodeToken> {
    let mut runner = NodeRunner::new(command).unwrap();
    let mut result = vec![];
    loop {
        let t = runner.step();
        let last = !matches!(t, NodeToken::ChainProperty(_) | NodeToken::ChainIndex(_) | NodeToken::ChainKey(_));
        result.push(t);
        if last {
            return result;
        }
    }
}

fn error(command: &str) -> String {
    match NodeRunner::new(command) {
        Ok(_) => panic!("expected an error"),
        Err(e) => e,
    }
}

#[test]
fn property_index_and_get() {
    let t = tokens("fighters[0].name get");
    assert_eq!(t.len(), 4);
    assert!(matches!(&t[0], NodeToken::ChainProperty(s) if s == "fighters"));
    assert!(matches!(t[1], NodeToken::ChainIndex(0)));
    assert!(matches!(&t[2], NodeToken::ChainProperty(s) if s == "name"));
    assert!(matches!(t[3], NodeToken::Get));
}

#[test]
fn keys_and_actions() {
    let t = tokens("a[x] copy");
    assert!(matches!(&t[1], NodeToken::ChainKey(s) if s == "x"));
    assert!(matches!(t[2], NodeToken::CopyFrom));
    let t = tokens("a.b  set   12 extra");
    assert!(matches!(&t[2], NodeToken::SetTo(s) if s == "12"));
    let t = tokens("a paste");
    assert!(matches!(t[1], NodeToken::PasteTo));
    let t = tokens("list[12].x get");
    assert!(matches!(t[1], NodeToken::ChainIndex(12)));
}

#[test]
fn malformed_commands() {
    assert_eq!(error("a.b"), "No action");
    assert_eq!(error(".a get"), "Missing property");
    assert_eq!(error("a[] get"), "Not a valid key or index.");
    assert_eq!(error("a["), "Unfinished key or index.");
    assert_eq!(error("a[1b] get"), "Not a valid index");
    assert_eq!(error("a set"), "No argument given to set action");
    assert_eq!(error("a frob"), "Action is invalid");
    assert_eq!(error("a "), "This should be unreachable: No Action");
}

fn run_on_list(list: &mut Vec<usize>, command: &str) -> String {
    let mut runner = NodeRunner::new(command).unwrap();
    runner.step();
    list.node_step(runner)
}

#[test]
fn lists_and_numbers_answer_commands() {
    let mut list: Vec<usize> = vec![1, 2, 3];
    assert_eq!(run_on_list(&mut list, "root[1] get"), "2");
    assert_eq!(run_on_list(&mut list, "root[1] set 7"), "");
    assert_eq!(list, vec![1, 7, 3]);
    assert_eq!(run_on_list(&mut list, "root.length get"), "3");
    assert_eq!(run_on_list(&mut list, "root.length set 9"), "");
    assert_eq!(list.len(), 3);
    assert_eq!(run_on_list(&mut list, "root[5] get"), "Used index 5 on a list of size 3 (try a value between 0-3");
    assert_eq!(run_on_list(&mut list, "root copy"), "List cannot 'CopyFrom'");
    assert_eq!(run_on_list(&mut list, "root.foo get"), "List cannot 'ChainProperty(\"foo\")'");
    assert_eq!(run_on_list(&mut list, "root[0] paste"), "usize cannot 'PasteTo'");
    let mut nested: Vec<Vec<usize>> = vec![vec![4, 5]];
    let mut runner = NodeRunner::new("root[0][1] get").unwrap();
    runner.step();
    assert_eq!(nested.node_step(runner), "5");
}

#[test]
fn commands_are_cut_at_positions_taken_as_byte_offsets() {
    assert_eq!(error("é"), "No action");
    assert_eq!(error("a[é]"), "No action");
    // '€' takes three bytes: the first name ends at byte 3 and the second
    // is the byte at offset 4, so the action text starts at "x".
    assert_eq!(error("€ab.x get"), "Action is invalid");
    // 'é' takes two bytes: "é" ends at byte 2, the second name spans bytes
    // 3 to 5 and the action text starts at the space.
    let t = tokens("éa.bc get");
    assert!(matches!(&t[0], NodeToken::ChainProperty(s) if s == "é"));
    assert!(matches!(&t[1], NodeToken::ChainProperty(s) if s == ".b"));
    assert!(matches!(t[2], NodeToken::Get));
    let t = tokens("a.b set é");
    assert!(matches!(&t[2], NodeToken::SetTo(s) if s == "é"));
}

#[test]
fn commands_cut_inside_a_character_are_refused() {
    // the second name would start in the middle of the second 'é'
    assert!(NodeRunner::try_new("éé.x get").is_none());
    assert!(NodeRunner::try_new("é get").is_none());
    assert!(matches!(NodeRunner::try_new("a get"), Some(Ok(_))));
    assert!(matches!(NodeRunner::try_new("é"), Some(Err(e)) if e == "No action"));
}

#[test]
fn keys_start_with_any_letter() {
    let t = tokens("a[éb] get");
    assert!(matches!(&t[1], NodeToken::ChainKey(s) if s == "é"));
    assert!(matches!(t[2], NodeToken::Get));
    assert_eq!(error("a[-] get"), "Not a valid key or index.");
}
