//! Commands that walk a tree of game data, such as
//! `fighters[0].actions[3].frames.length get` or `meta.title set Foo`:
//! a chain of property names, list indexes and map keys, then an action.

use vstd::prelude::*;
use crate::text::{byte_slice, char_index_at, char_index_at_byte, chars_of, chars_range, decimal, decimal_chars, extend_chars, is_char_boundary, lemma_char_index_bounds, lemma_char_index_monotone, parse_unsigned, slice_ok, spec_parse_unsigned, str_eq, string_from_chars};

verus! {

/// What a command does at one level of the tree.
pub enum NodeToken {
    ChainProperty(String),
    ChainIndex(usize),
    ChainKey(String),
    Get,
    SetTo(String),
    CopyFrom,
    PasteTo,
    Custom(String),
}

/// A token as a value.
pub enum TokenView {
    ChainProperty(Seq<char>),
    ChainIndex(usize),
    ChainKey(Seq<char>),
    Get,
    SetTo(Seq<char>),
    CopyFrom,
    PasteTo,
    Custom(Seq<char>),
}

impl View for NodeToken {
    type V = TokenView;

    open spec fn view(&self) -> TokenView {
        match self {
            NodeToken::ChainProperty(s) => TokenView::ChainProperty(s@),
            NodeToken::ChainIndex(i) => TokenView::ChainIndex(*i),
            NodeToken::ChainKey(s) => TokenView::ChainKey(s@),
            NodeToken::Get => TokenView::Get,
            NodeToken::SetTo(s) => TokenView::SetTo(s@),
            NodeToken::CopyFrom => TokenView::CopyFrom,
            NodeToken::PasteTo => TokenView::PasteTo,
            NodeToken::Custom(s) => TokenView::Custom(s@),
        }
    }
}

/// What the command text being read at the moment is.
#[derive(Clone, Copy, Debug, PartialEq, Eq, Structural)]
pub enum NodeTokenProgress {
    ChainProperty,
    ChainIndex,
    ChainKey,
    Action,
}

/// How far a command has been read: what is being read, where it began,
/// and the tokens read so far.
pub struct ScanState {
    pub progress: NodeTokenProgress,
    pub begin: int,
    pub tokens: Seq<TokenView>,
}

/// Whether `c` has the Unicode Alphabetic property, as `char::is_alphabetic`
/// answers.
pub uninterp spec fn alphabetic(c: char) -> bool;

/// `char::is_alphabetic`. Claimed: the answer is `alphabetic` of `c`.
#[verifier::external_body]
fn is_alphabetic(c: char) -> (r: bool)
    ensures
        r == alphabetic(c),
{
    c.is_alphabetic()
}

/// Whether `c` ends a part of a command.
pub open spec fn is_delimiter(c: char) -> bool {
    c == '.' || c == ' ' || c == '['
}

/// Whether the text of the token that ends at the delimiter at `i` can be
/// cut out. The game cuts the command at character positions taken as byte
/// offsets; the cut is a slice only where both ends fall on character
/// boundaries (elsewhere the game panics).
pub open spec fn token_slice_ok(cmd: Seq<char>, st: ScanState, i: int) -> bool {
    match st.progress {
        NodeTokenProgress::ChainProperty => slice_ok(cmd, st.begin, i),
        NodeTokenProgress::ChainIndex => slice_ok(cmd, st.begin, i - 1),
        NodeTokenProgress::ChainKey => slice_ok(cmd, st.begin, i - 1),
        NodeTokenProgress::Action => true,
    }
}

/// The token that ends where the delimiter at `i` is. An index or key is
/// followed by its closing bracket, which is not part of it. The text of a
/// token lies between the positions where it begins and ends, taken as byte
/// offsets.
pub open spec fn token_before(cmd: Seq<char>, st: ScanState, i: int) -> Result<
    TokenView,
    Seq<char>,
> {
    match st.progress {
        NodeTokenProgress::ChainProperty => {
            let s = byte_slice(cmd, st.begin, i);
            if s.len() == 0 {
                Err("Missing property"@)
            } else {
                Ok(TokenView::ChainProperty(s))
            }
        },
        NodeTokenProgress::ChainIndex => {
            let s = byte_slice(cmd, st.begin, i - 1);
            if s.len() == 0 {
                Err("Missing index"@)
            } else {
                match crate::text::spec_parse_unsigned(s, usize::MAX as int) {
                    Some(v) => Ok(TokenView::ChainIndex(v as usize)),
                    None => Err("Not a valid index"@),
                }
            }
        },
        NodeTokenProgress::ChainKey => {
            let s = byte_slice(cmd, st.begin, i - 1);
            if s.len() == 0 {
                Err("Missing index"@)
            } else {
                Ok(TokenView::ChainKey(s))
            }
        },
        NodeTokenProgress::Action => Ok(TokenView::Get),
    }
}

/// Reads `cmd` from position `i` on, up to and including the first space;
/// `None` where a token would be cut inside a character.
pub open spec fn scan(cmd: Seq<char>, i: int, st: ScanState) -> Option<Result<ScanState, Seq<char>>>
    decreases cmd.len() - i,
{
    if i < 0 || i >= cmd.len() {
        Some(Ok(st))
    } else {
        let c = cmd[i];
        let before = token_before(cmd, st, i);
        if is_delimiter(c) && !token_slice_ok(cmd, st, i) {
            None
        } else if is_delimiter(c) && before is Err {
            Some(Err(before->Err_0))
        } else {
            let st1 = if is_delimiter(c) {
                ScanState { tokens: st.tokens.push(before->Ok_0), begin: i + 1, ..st }
            } else {
                st
            };
            if c == '.' {
                scan(cmd, i + 1, ScanState { progress: NodeTokenProgress::ChainProperty, ..st1 })
            } else if c == ' ' {
                Some(Ok(ScanState { progress: NodeTokenProgress::Action, ..st1 }))
            } else if c == '[' {
                if i + 1 < cmd.len() {
                    if crate::text::is_decimal_digit(cmd[i + 1]) {
                        scan(cmd, i + 1, ScanState { progress: NodeTokenProgress::ChainIndex, ..st1 })
                    } else if alphabetic(cmd[i + 1]) {
                        scan(cmd, i + 1, ScanState { progress: NodeTokenProgress::ChainKey, ..st1 })
                    } else {
                        Some(Err("Not a valid key or index."@))
                    }
                } else {
                    Some(Err("Unfinished key or index."@))
                }
            } else {
                scan(cmd, i + 1, st1)
            }
        }
    }
}

/// How reading a command begins.
pub open spec fn scan_start() -> ScanState {
    ScanState { progress: NodeTokenProgress::ChainProperty, begin: 0, tokens: seq![] }
}

/// The action token that the text after the first space spells.
pub open spec fn action_token(s: Seq<char>) -> Result<TokenView, Seq<char>> {
    match crate::text::first_word(s) {
        None => Err("This should be unreachable: No Action"@),
        Some(w) => if w == "get"@ {
            Ok(TokenView::Get)
        } else if w == "set"@ {
            match crate::text::first_word(crate::text::after_first_word(s)) {
                Some(arg) => Ok(TokenView::SetTo(arg)),
                None => Err("No argument given to set action"@),
            }
        } else if w == "copy"@ {
            Ok(TokenView::CopyFrom)
        } else if w == "paste"@ {
            Ok(TokenView::PasteTo)
        } else {
            Err("Action is invalid"@)
        },
    }
}

/// Whether the game, reading `cmd`, cuts it inside a character: a token, or
/// the action after the first space, would begin or end in the middle of a
/// character's bytes. The game panics on such a command.
pub open spec fn cuts_inside_char(cmd: Seq<char>) -> bool {
    match scan(cmd, 0, scan_start()) {
        None => true,
        Some(Err(_)) => false,
        Some(Ok(st)) => st.progress == NodeTokenProgress::Action && !is_char_boundary(cmd, st.begin),
    }
}

/// The tokens of the command `cmd`, in order, or why it is not a command
/// (for a command that `cuts_inside_char`, nothing is said).
pub open spec fn parse_command(cmd: Seq<char>) -> Result<Seq<TokenView>, Seq<char>> {
    match scan(cmd, 0, scan_start()) {
        None => Err(Seq::empty()),
        Some(Err(e)) => Err(e),
        Some(Ok(st)) => if st.progress == NodeTokenProgress::Action {
            match action_token(cmd.skip(char_index_at_byte(cmd, st.begin))) {
                Ok(t) => Ok(st.tokens.push(t)),
                Err(e) => Err(e),
            }
        } else {
            Err("No action"@)
        },
    }
}

/// The text `format!("{:?}", s)` gives for the string `s`: in double
/// quotes, with the characters that Rust escapes escaped.
pub uninterp spec fn debug_str(s: Seq<char>) -> Seq<char>;

/// `format!("{:?}", s)` of a string (its `Debug` text). Claimed: the text
/// is `debug_str` of `s`.
#[verifier::external_body]
fn debug_text(s: &str) -> (r: String)
    ensures
        r@ == debug_str(s@),
{
    format!("{:?}", s)
}

/// The `Debug` text of a token, as the game prints it.
pub open spec fn token_debug(t: TokenView) -> Seq<char> {
    match t {
        TokenView::ChainProperty(s) => "ChainProperty("@ + debug_str(s) + ")"@,
        TokenView::ChainIndex(i) => "ChainIndex("@ + decimal(i as nat) + ")"@,
        TokenView::ChainKey(s) => "ChainKey("@ + debug_str(s) + ")"@,
        TokenView::Get => "Get"@,
        TokenView::SetTo(s) => "Set("@ + debug_str(s) + ")"@,
        TokenView::CopyFrom => "CopyFrom"@,
        TokenView::PasteTo => "PasteTo"@,
        TokenView::Custom(s) => "Custom("@ + debug_str(s) + ")"@,
    }
}

fn wrapped(name: &str, inner: &Vec<char>) -> (r: String)
    ensures
        r@ == name@ + inner@ + ")"@,
{
    let mut all = chars_of(name);
    extend_chars(&mut all, inner);
    extend_chars(&mut all, &chars_of(")"));
    string_from_chars(&all)
}

/// The `Debug` text of a token.
pub fn token_debug_text(t: &NodeToken) -> (r: String)
    ensures
        r@ == token_debug(t@),
{
    match t {
        NodeToken::ChainProperty(s) => wrapped("ChainProperty(", &chars_of(debug_text(s.as_str()).as_str())),
        NodeToken::ChainIndex(i) => wrapped("ChainIndex(", &decimal_chars(*i as u64)),
        NodeToken::ChainKey(s) => wrapped("ChainKey(", &chars_of(debug_text(s.as_str()).as_str())),
        NodeToken::Get => string_from_chars(&chars_of("Get")),
        NodeToken::SetTo(s) => wrapped("Set(", &chars_of(debug_text(s.as_str()).as_str())),
        NodeToken::CopyFrom => string_from_chars(&chars_of("CopyFrom")),
        NodeToken::PasteTo => string_from_chars(&chars_of("PasteTo")),
        NodeToken::Custom(s) => wrapped("Custom(", &chars_of(debug_text(s.as_str()).as_str())),
    }
}

/// The tokens of a command, handed out one level at a time.
pub struct NodeRunner {
    tokens: Vec<NodeToken>,
}

impl NodeRunner {
    /// The tokens not handed out yet, in the order `step` hands them out.
    pub closed spec fn remaining(&self) -> Seq<TokenView> {
        self.tokens@.map_values(|t: NodeToken| t@).reverse()
    }

    /// The command `command` read into its tokens, or why it is not a
    /// command (see `parse_command`); `None` for a command that the game
    /// cuts inside a character (see `cuts_inside_char`), on which it panics.
    pub fn try_new(command: &str) -> (r: Option<Result<NodeRunner, String>>)
        ensures
            r is None <==> cuts_inside_char(command@),
            r matches Some(x) ==> match parse_command(command@) {
                Ok(ts) => x matches Ok(n) && n.remaining() == ts,
                Err(e) => x matches Err(m) && m@ == e,
            },
    {
        let chars = chars_of(command);
        let ghost cmd = command@;
        let ghost init = ScanState {
            progress: NodeTokenProgress::ChainProperty,
            begin: 0,
            tokens: seq![],
        };
        let mut tokens: Vec<NodeToken> = Vec::new();
        let mut progress = NodeTokenProgress::ChainProperty;
        let mut begin: usize = 0;
        let mut i: usize = 0;
        let mut done = false;
        assert(tokens@.map_values(|t: NodeToken| t@) =~= Seq::<TokenView>::empty());
        while i < chars.len() && !done
            invariant
                init == (ScanState {
                    progress: NodeTokenProgress::ChainProperty,
                    begin: 0,
                    tokens: seq![],
                }),
                chars@ == cmd,
                cmd == command@,
                i <= chars@.len(),
                begin <= chars@.len(),
                !done ==> begin <= i,
                init == scan_start(),
                !done ==> scan(cmd, 0, init) == scan(
                    cmd,
                    i as int,
                    ScanState {
                        progress,
                        begin: begin as int,
                        tokens: tokens@.map_values(|t: NodeToken| t@),
                    },
                ),
                done ==> scan(cmd, 0, init) == Some(Ok::<ScanState, Seq<char>>(
                    ScanState {
                        progress,
                        begin: begin as int,
                        tokens: tokens@.map_values(|t: NodeToken| t@),
                    },
                )),
            decreases chars@.len() - i, if done {
                0int
            } else {
                1int
            },
        {
            let c = chars[i];
            let ghost st = ScanState {
                progress,
                begin: begin as int,
                tokens: tokens@.map_values(|t: NodeToken| t@),
            };
            let ghost st1 = st;
            if c == '.' || c == ' ' || c == '[' {
                let t = match progress {
                    NodeTokenProgress::ChainProperty => {
                        let (a, b) = match (char_index_at(&chars, begin), char_index_at(&chars, i)) {
                            (Some(a), Some(b)) => (a, b),
                            _ => {
                                return None;
                            },
                        };
                        proof {
                            lemma_char_index_monotone(cmd, begin as int, i as int);
                            lemma_char_index_bounds(cmd, i as int);
                        }
                        if a == b {
                            assert(byte_slice(cmd, begin as int, i as int) =~= Seq::<char>::empty());
                            assert(scan(cmd, i as int, st) == Some(Err::<ScanState, Seq<char>>(
                                "Missing property"@,
                            )));
                            return Some(Err(string_from_chars(&chars_of("Missing property"))));
                        }
                        NodeToken::ChainProperty(string_from_chars(&chars_range(&chars, a, b)))
                    },
                    NodeTokenProgress::ChainIndex => {
                        if i < begin + 1 {
                            return None;
                        }
                        let (a, b) = match (char_index_at(&chars, begin), char_index_at(&chars, i - 1)) {
                            (Some(a), Some(b)) => (a, b),
                            _ => {
                                return None;
                            },
                        };
                        proof {
                            lemma_char_index_monotone(cmd, begin as int, i - 1);
                            lemma_char_index_bounds(cmd, i - 1);
                        }
                        if a == b {
                            assert(byte_slice(cmd, begin as int, i - 1) =~= Seq::<char>::empty());
                            return Some(Err(string_from_chars(&chars_of("Missing index"))));
                        }
                        let text = string_from_chars(&chars_range(&chars, a, b));
                        match crate::text::parse_unsigned(text.as_str(), usize::MAX as u64) {
                            Some(v) => NodeToken::ChainIndex(v as usize),
                            None => {
                                return Some(Err(string_from_chars(&chars_of("Not a valid index"))));
                            },
                        }
                    },
                    NodeTokenProgress::ChainKey => {
                        if i < begin + 1 {
                            return None;
                        }
                        let (a, b) = match (char_index_at(&chars, begin), char_index_at(&chars, i - 1)) {
                            (Some(a), Some(b)) => (a, b),
                            _ => {
                                return None;
                            },
                        };
                        proof {
                            lemma_char_index_monotone(cmd, begin as int, i - 1);
                            lemma_char_index_bounds(cmd, i - 1);
                        }
                        if a == b {
                            assert(byte_slice(cmd, begin as int, i - 1) =~= Seq::<char>::empty());
                            return Some(Err(string_from_chars(&chars_of("Missing index"))));
                        }
                        NodeToken::ChainKey(string_from_chars(&chars_range(&chars, a, b)))
                    },
                    NodeTokenProgress::Action => NodeToken::Get,
                };
                assert(token_before(cmd, st, i as int) == Ok::<TokenView, Seq<char>>(t@));
                let ghost prev = tokens@;
                tokens.push(t);
                begin = i + 1;
                proof {
                    assert(tokens@.map_values(|t: NodeToken| t@) =~= prev.map_values(
                        |t: NodeToken| t@,
                    ).push(t@));
                    st1 = ScanState {
                        tokens: st.tokens.push(token_before(cmd, st, i as int)->Ok_0),
                        begin: i + 1,
                        ..st
                    };
                }
            }
            if c == '.' {
                progress = NodeTokenProgress::ChainProperty;
                i = i + 1;
            } else if c == ' ' {
                progress = NodeTokenProgress::Action;
                done = true;
            } else if c == '[' {
                if i + 1 < chars.len() {
                    let n = chars[i + 1];
                    if '0' <= n && n <= '9' {
                        progress = NodeTokenProgress::ChainIndex;
                    } else if is_alphabetic(n) {
                        progress = NodeTokenProgress::ChainKey;
                    } else {
                        assert(scan(cmd, i as int, st) == Some(Err::<ScanState, Seq<char>>(
                            "Not a valid key or index."@,
                        )));
                        return Some(Err(string_from_chars(&chars_of("Not a valid key or index."))));
                    }
                    i = i + 1;
                } else {
                    assert(scan(cmd, i as int, st) == Some(Err::<ScanState, Seq<char>>(
                        "Unfinished key or index."@,
                    )));
                    return Some(Err(string_from_chars(&chars_of("Unfinished key or index."))));
                }
            } else {
                i = i + 1;
            }
        }
        let ghost fin = ScanState {
            progress,
            begin: begin as int,
            tokens: tokens@.map_values(|t: NodeToken| t@),
        };
        assert(scan(cmd, 0, init) == Some(Ok::<ScanState, Seq<char>>(fin)));
        if progress != NodeTokenProgress::Action {
            return Some(Err(string_from_chars(&chars_of("No action"))));
        }
        let start = match char_index_at(&chars, begin) {
            Some(k) => k,
            None => {
                return None;
            },
        };
        proof {
            lemma_char_index_bounds(cmd, begin as int);
        }
        let (first, after) = crate::text::first_word_from(&chars, start);
        let action = match first {
            None => {
                return Some(Err(string_from_chars(&chars_of("This should be unreachable: No Action"))));
            },
            Some(w) => {
                let word = string_from_chars(&w);
                if crate::text::str_eq(word.as_str(), "get") {
                    NodeToken::Get
                } else if crate::text::str_eq(word.as_str(), "set") {
                    let (arg, _) = crate::text::first_word_from(&chars, after);
                    match arg {
                        Some(a) => NodeToken::SetTo(string_from_chars(&a)),
                        None => {
                            return Some(Err(
                                string_from_chars(&chars_of("No argument given to set action")),
                            ));
                        },
                    }
                } else if crate::text::str_eq(word.as_str(), "copy") {
                    NodeToken::CopyFrom
                } else if crate::text::str_eq(word.as_str(), "paste") {
                    NodeToken::PasteTo
                } else {
                    return Some(Err(string_from_chars(&chars_of("Action is invalid"))));
                }
            },
        };
        let ghost prev = tokens@;
        tokens.push(action);
        let ghost in_order = tokens@;
        assert(in_order.map_values(|t: NodeToken| t@) =~= prev.map_values(|t: NodeToken| t@).push(
            action@,
        ));
        let mut reversed: Vec<NodeToken> = Vec::new();
        while tokens.len() > 0
            invariant
                reversed@ == in_order.subrange(tokens@.len() as int, in_order.len() as int).reverse(),
                tokens@ == in_order.take(tokens@.len() as int),
                tokens@.len() <= in_order.len(),
            decreases tokens@.len(),
        {
            let t = tokens.pop().unwrap();
            reversed.push(t);
            proof {
                assert(reversed@ =~= in_order.subrange(tokens@.len() as int, in_order.len() as int).reverse());
                assert(tokens@ =~= in_order.take(tokens@.len() as int));
            }
        }
        let r = NodeRunner { tokens: reversed };
        proof {
            assert(in_order.subrange(0, in_order.len() as int) =~= in_order);
            assert(r.remaining() =~= in_order.map_values(|t: NodeToken| t@));
        }
        Some(Ok(r))
    }

    /// The command `command` read into its tokens, or why it is not a
    /// command (see `parse_command`). The command is not one that the game
    /// cuts inside a character (see `cuts_inside_char`; `try_new` takes any).
    pub fn new(command: &str) -> (r: Result<NodeRunner, String>)
        requires
            !cuts_inside_char(command@),
        ensures
            match parse_command(command@) {
                Ok(ts) => r matches Ok(n) && n.remaining() == ts,
                Err(e) => r matches Err(m) && m@ == e,
            },
    {
        match Self::try_new(command) {
            Some(r) => r,
            None => Err(string_from_chars(&chars_of("No action"))),
        }
    }

    /// Hands out the next token.
    pub fn step(&mut self) -> (t: NodeToken)
        requires
            old(self).remaining().len() > 0,
        ensures
            t@ == old(self).remaining()[0],
            final(self).remaining() == old(self).remaining().drop_first(),
    {
        let t = self.tokens.pop().unwrap();
        proof {
            assert(self.remaining() =~= old(self).remaining().drop_first());
        }
        t
    }
}

/// A value that a command can walk into and act on.
pub trait Node: Sized {
    /// Whether running `tokens` on this value comes to an end; the game
    /// stops on the others.
    spec fn node_runs(&self, tokens: Seq<TokenView>) -> bool;

    /// What running `tokens` on this value answers.
    spec fn node_reply(&self, tokens: Seq<TokenView>) -> Seq<char>;

    /// Whether `after` is this value after running `tokens` on it.
    spec fn node_changes(&self, tokens: Seq<TokenView>, after: &Self) -> bool;

    /// Runs the rest of a command on this value and returns the answer.
    fn node_step(&mut self, runner: NodeRunner) -> (reply: String)
        requires
            old(self).node_runs(runner.remaining()),
        ensures
            reply@ == old(self).node_reply(runner.remaining()),
            old(self).node_changes(runner.remaining(), &*final(self)),
    ;
}

fn framed(prefix: &str, mid: &String, suffix: &str) -> (r: String)
    ensures
        r@ == prefix@ + mid@ + suffix@,
{
    let mut all = chars_of(prefix);
    extend_chars(&mut all, &chars_of(mid.as_str()));
    extend_chars(&mut all, &chars_of(suffix));
    string_from_chars(&all)
}

/// The answer to a token that a value has no use for, after `prefix`
/// (which names the kind of value).
pub open spec fn cannot(prefix: Seq<char>, t: TokenView) -> Seq<char> {
    prefix + token_debug(t) + "'"@
}

impl Node for usize {
    open spec fn node_runs(&self, tokens: Seq<TokenView>) -> bool {
        &&& tokens.len() > 0
        &&& tokens[0] matches TokenView::SetTo(v) ==> spec_parse_unsigned(v, usize::MAX as int) is Some
    }

    open spec fn node_reply(&self, tokens: Seq<TokenView>) -> Seq<char> {
        match tokens[0] {
            TokenView::Get => decimal(*self as nat),
            TokenView::SetTo(_) => Seq::empty(),
            t => cannot("usize cannot '"@, t),
        }
    }

    open spec fn node_changes(&self, tokens: Seq<TokenView>, after: &usize) -> bool {
        match tokens[0] {
            TokenView::SetTo(v) => Some(*after as int) == spec_parse_unsigned(v, usize::MAX as int),
            _ => *after == *self,
        }
    }

    fn node_step(&mut self, runner: NodeRunner) -> (reply: String) {
        let mut runner = runner;
        let t = runner.step();
        match &t {
            NodeToken::Get => {
                assert((*self as u64) as nat == *self as nat);
                string_from_chars(&decimal_chars(*self as u64))
            },
            NodeToken::SetTo(value) => {
                match parse_unsigned(value.as_str(), usize::MAX as u64) {
                    Some(v) => {
                        *self = v as usize;
                    },
                    None => {},
                }
                String::new()
            },
            _ => framed("usize cannot '", &token_debug_text(&t), "'"),
        }
    }
}

/// The answer to an index past the end of a list of `length` items.
pub open spec fn index_error(index: usize, length: nat) -> Seq<char> {
    "Used index "@ + decimal(index as nat) + " on a list of size "@ + decimal(length)
        + " (try a value between 0-"@ + decimal(length)
}

fn index_error_text(index: usize, length: usize) -> (r: String)
    ensures
        r@ == index_error(index, length as nat),
{
    let mut all = chars_of("Used index ");
    extend_chars(&mut all, &decimal_chars(index as u64));
    extend_chars(&mut all, &chars_of(" on a list of size "));
    extend_chars(&mut all, &decimal_chars(length as u64));
    extend_chars(&mut all, &chars_of(" (try a value between 0-"));
    extend_chars(&mut all, &decimal_chars(length as u64));
    string_from_chars(&all)
}

impl<U: Node> Node for Vec<U> {
    open spec fn node_runs(&self, tokens: Seq<TokenView>) -> bool {
        &&& tokens.len() > 0
        &&& match tokens[0] {
            TokenView::ChainIndex(i) => i < self@.len() ==> self@[i as int].node_runs(tokens.drop_first()),
            TokenView::ChainProperty(s) => s == "length"@ ==> Node::node_runs(
                &(self@.len() as usize),
                tokens.drop_first(),
            ),
            _ => true,
        }
    }

    open spec fn node_reply(&self, tokens: Seq<TokenView>) -> Seq<char> {
        match tokens[0] {
            TokenView::ChainIndex(i) => if i < self@.len() {
                self@[i as int].node_reply(tokens.drop_first())
            } else {
                index_error(i, self@.len())
            },
            TokenView::ChainProperty(s) => if s == "length"@ {
                Node::node_reply(&(self@.len() as usize), tokens.drop_first())
            } else {
                cannot("List cannot '"@, tokens[0])
            },
            t => cannot("List cannot '"@, t),
        }
    }

    open spec fn node_changes(&self, tokens: Seq<TokenView>, after: &Vec<U>) -> bool {
        match tokens[0] {
            TokenView::ChainIndex(i) => if i < self@.len() {
                &&& after@.len() == self@.len()
                &&& forall|j: int| 0 <= j < self@.len() && j != i ==> after@[j] == self@[j]
                &&& self@[i as int].node_changes(tokens.drop_first(), &after@[i as int])
            } else {
                after@ == self@
            },
            _ => after@ == self@,
        }
    }

    fn node_step(&mut self, runner: NodeRunner) -> (reply: String) {
        let mut runner = runner;
        let t = runner.step();
        match &t {
            NodeToken::ChainIndex(index) => {
                let length = self.len();
                if *index < length {
                    self[*index].node_step(runner)
                } else {
                    index_error_text(*index, length)
                }
            },
            NodeToken::ChainProperty(s) => {
                if str_eq(s.as_str(), "length") {
                    let mut length = self.len();
                    length.node_step(runner)
                } else {
                    framed("List cannot '", &token_debug_text(&t), "'")
                }
            },
            _ => framed("List cannot '", &token_debug_text(&t), "'"),
        }
    }
}

} // verus!
