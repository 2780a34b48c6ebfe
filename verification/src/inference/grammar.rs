//! Structured output: JSON mode and grammar-constrained generation.
//!
//! A `GrammarState` follows the text generated so far with a small lexer (nesting
//! depth, inside a string, after a backslash) and decides which candidate tokens may
//! come next.
use vstd::prelude::*;
use crate::error::FuseError;
use crate::text::{self, alphanumeric, has_substring, trimmed};

verus! {

/// Grammar constraint for structured output.
#[derive(Debug, Clone)]
pub enum Grammar {
    /// Output must be valid JSON.
    Json,
    /// Output must match a JSON schema.
    JsonSchema(String),
    /// Output must match a regex pattern.
    Regex(String),
}

/// What the lexer tracks: brace/bracket nesting depth, whether it is inside a
/// string literal, and whether the previous character in a string was a backslash.
pub struct LexState {
    pub depth: int,
    pub in_string: bool,
    pub escaped: bool,
}

/// One character of lexing.
pub open spec fn lex_step(st: LexState, c: char) -> LexState {
    if st.in_string {
        if st.escaped {
            LexState { escaped: false, ..st }
        } else if c == '\\' {
            LexState { escaped: true, ..st }
        } else if c == '"' {
            LexState { in_string: false, ..st }
        } else {
            st
        }
    } else if c == '"' {
        LexState { in_string: true, ..st }
    } else if c == '{' || c == '[' {
        LexState { depth: st.depth + 1, ..st }
    } else if c == '}' || c == ']' {
        LexState { depth: st.depth - 1, ..st }
    } else {
        st
    }
}

/// Lexing a whole sequence of characters, left to right.
pub open spec fn lex(st: LexState, s: Seq<char>) -> LexState
    decreases s.len(),
{
    if s.len() == 0 {
        st
    } else {
        lex_step(lex(st, s.drop_last()), s.last())
    }
}

/// Whether every depth that lexing `s` from `st` passes through, the start
/// included, fits in an `i32`.
pub open spec fn depths_in_range(st: LexState, s: Seq<char>) -> bool {
    forall|k: int|
        0 <= k <= s.len() ==> i32::MIN <= #[trigger] lex(st, s.take(k)).depth <= i32::MAX
}

/// The characters JSON text may hold besides letters and digits.
pub open spec fn json_punct(c: char) -> bool {
    "{}[]\",:.-+eE_ \t\n\r\\/"@.contains(c)
}

/// Whether a JSON grammar admits `token` next, given the lexer's string flag and
/// the output so far.
pub open spec fn json_token_allowed(in_string: bool, output: Seq<char>, token: Seq<char>) -> bool {
    let t = trimmed(token);
    if t.len() == 0 {
        true
    } else if in_string {
        true
    } else if trimmed(output).len() == 0 {
        t[0] == '{' || t[0] == '[' || t[0] == '"'
    } else {
        forall|k: int| 0 <= k < t.len() ==> alphanumeric(#[trigger] t[k]) || json_punct(t[k])
    }
}

/// A character JSON text may hold outside strings: a letter or digit, or one of
/// `{ } [ ] " , : . - + e E _`, space, tab, newline, carriage return, backslash
/// and slash.
pub open spec fn json_text_char(c: char) -> bool {
    alphanumeric(c) || c == '{' || c == '}' || c == '[' || c == ']' || c == '"' || c == ','
        || c == ':' || c == '.' || c == '-' || c == '+' || c == 'e' || c == 'E' || c == '_' || c == ' '
        || c == '\t' || c == '\n' || c == '\r' || c == '\\' || c == '/'
}

/// In JSON mode, once something has been written and outside any string, a token
/// is admitted exactly when its trimmed text is empty or made only of characters
/// JSON text may hold (so negative and exponent numbers, like `-5` or `1e+3`, can
/// be generated); inside a string every token is admitted.
pub proof fn lemma_json_tokens(output: Seq<char>, token: Seq<char>)
    ensures
        json_token_allowed(true, output, token),
        trimmed(output).len() > 0 ==> (json_token_allowed(false, output, token) <==> forall|k: int|
            0 <= k < trimmed(token).len() ==> json_text_char(#[trigger] trimmed(token)[k])),
{
    reveal_strlit("{}[]\",:.-+eE_ \t\n\r\\/");
    let t = trimmed(token);
    assert forall|c: char| json_punct(c) <==> (c == '{' || c == '}' || c == '[' || c == ']' || c == '"'
        || c == ',' || c == ':' || c == '.' || c == '-' || c == '+' || c == 'e' || c == 'E' || c == '_'
        || c == ' ' || c == '\t' || c == '\n' || c == '\r' || c == '\\' || c == '/') by {
        let p = "{}[]\",:.-+eE_ \t\n\r\\/"@;
        if json_punct(c) {
            let i = choose|i: int| 0 <= i < p.len() && p[i] == c;
            assert(p[i] == c);
        } else {
            assert(p[0] == '{' && p[1] == '}' && p[2] == '[' && p[3] == ']' && p[4] == '"');
            assert(p[5] == ',' && p[6] == ':' && p[7] == '.' && p[8] == '-' && p[9] == '+');
            assert(p[10] == 'e' && p[11] == 'E' && p[12] == '_' && p[13] == ' ' && p[14] == '\t');
            assert(p[15] == '\n' && p[16] == '\r' && p[17] == '\\' && p[18] == '/');
        }
    }
}

/// Whether the grammar admits `token` next.
pub open spec fn token_allowed(g: Grammar, in_string: bool, output: Seq<char>, token: Seq<char>) -> bool {
    match g {
        Grammar::Regex(_) => token.len() > 0,
        _ => json_token_allowed(in_string, output, token),
    }
}

/// serde_json's verdict on a text read as an arbitrary JSON value: `None` where it
/// parses, else `Some` of the error's message. The parser is serde_json's; only the
/// name is used here.
pub uninterp spec fn json_parse_error(text: Seq<char>) -> Option<Seq<char>>;

/// serde_json's `from_str::<Value>`: whether the text parses, with the error's
/// display text where it does not. Its result is named `json_parse_error` of the text.
#[verifier::external_body]
fn parse_json_value(text: &str) -> (r: Option<String>)
    ensures
        match r {
            None => json_parse_error(text@) is None,
            Some(m) => json_parse_error(text@) == Some(m@),
        },
{
    match serde_json::from_str::<serde_json::Value>(text) {
        Ok(_) => None,
        Err(e) => Some(e.to_string()),
    }
}

/// What JSON validation answers, given serde_json's verdict on the trimmed output:
/// success, or an inference error that carries the parser's message.
pub fn json_verdict(parse_error: Option<String>) -> (r: Result<(), FuseError>)
    ensures
        match parse_error {
            None => r is Ok,
            Some(m) => r matches Err(FuseError::InferenceError(msg)) && msg@
                == "Invalid JSON output: "@ + m@,
        },
{
    match parse_error {
        None => Ok(()),
        Some(m) => Err(FuseError::InferenceError(text::concat2("Invalid JSON output: ", m.as_str()))),
    }
}

/// State machine that tracks grammar compliance during generation.
pub struct GrammarState {
    pub grammar: Grammar,
    pub output_so_far: String,
    /// Brace/bracket nesting depth.
    pub depth: i32,
    pub in_string: bool,
    pub escaped: bool,
}

impl GrammarState {
    /// The lexer part of the state.
    pub open spec fn lex_state(&self) -> LexState {
        LexState { depth: self.depth as int, in_string: self.in_string, escaped: self.escaped }
    }

    /// A fresh state: no output yet, depth zero, outside any string.
    pub fn new(grammar: Grammar) -> (r: GrammarState)
        ensures
            r.grammar == grammar,
            r.output_so_far@ == Seq::<char>::empty(),
            r.depth == 0,
            !r.in_string,
            !r.escaped,
    {
        GrammarState {
            grammar,
            output_so_far: String::new(),
            depth: 0,
            in_string: false,
            escaped: false,
        }
    }

    /// Whether a candidate token is allowed given the current state.
    pub fn is_token_allowed(&self, token_text: &str) -> (r: bool)
        ensures
            r == token_allowed(self.grammar, self.in_string, self.output_so_far@, token_text@),
    {
        match &self.grammar {
            Grammar::Json => self.is_json_token_allowed(token_text),
            Grammar::JsonSchema(_) => self.is_json_token_allowed(token_text),
            Grammar::Regex(pattern) => self.is_regex_compatible(token_text, pattern.as_str()),
        }
    }

    /// Advances the state with a new token: lexes its characters and appends it to the
    /// output.
    pub fn advance(&mut self, token_text: &str)
        requires
            depths_in_range(old(self).lex_state(), token_text@),
        ensures
            final(self).lex_state() == lex(old(self).lex_state(), token_text@),
            final(self).output_so_far@ == old(self).output_so_far@ + token_text@,
            final(self).grammar == old(self).grammar,
    {
        let ghost st0 = self.lex_state();
        let ghost d0 = self.depth as int;
        let ghost n = token_text@.len();
        for ch in it: token_text.chars()
            invariant
                it.seq() == token_text@,
                n == token_text@.len(),
                depths_in_range(st0, token_text@),
                self.lex_state() == lex(st0, token_text@.take(it.index() as int)),
                self.output_so_far@ == old(self).output_so_far@,
                self.grammar == old(self).grammar,
        {
            let ghost k = it.index() as int;
            assert(token_text@.take(k + 1).drop_last() =~= token_text@.take(k));
            assert(token_text@.take(k + 1).last() == ch);
            assert(i32::MIN <= lex(st0, token_text@.take(k + 1)).depth <= i32::MAX);
            if self.in_string {
                if self.escaped {
                    self.escaped = false;
                } else if ch == '\\' {
                    self.escaped = true;
                } else if ch == '"' {
                    self.in_string = false;
                }
            } else {
                match ch {
                    '"' => self.in_string = true,
                    '{' | '[' => self.depth = self.depth + 1,
                    '}' | ']' => self.depth = self.depth - 1,
                    _ => {},
                }
            }
        }
        assert(token_text@.take(n as int) =~= token_text@);
        self.output_so_far.append(token_text);
    }

    /// Whether the output so far is a valid place to stop: for JSON, outside any string,
    /// at depth zero and with some non-blank output; for a regex, always.
    pub fn is_complete(&self) -> (r: bool)
        ensures
            r == match self.grammar {
                Grammar::Regex(_) => true,
                _ => !self.in_string && self.depth == 0 && trimmed(self.output_so_far@).len() > 0,
            },
    {
        match &self.grammar {
            Grammar::Json | Grammar::JsonSchema(_) => {
                !self.in_string && self.depth == 0 && text::trim(self.output_so_far.as_str()).len()
                    > 0
            },
            Grammar::Regex(_) => true,
        }
    }

    /// Validates the final output. For JSON the trimmed output must parse as a JSON
    /// value; for a regex the output must contain the pattern, or the pattern be empty.
    pub fn validate_output(&self) -> (r: Result<(), FuseError>)
        ensures
            match self.grammar {
                Grammar::Regex(p) => if has_substring(self.output_so_far@, p@) || p@.len() == 0 {
                    r is Ok
                } else {
                    r matches Err(FuseError::InferenceError(msg)) && msg@
                        == "Output does not match regex: "@ + p@
                },
                _ => match json_parse_error(trimmed(self.output_so_far@)) {
                    None => r is Ok,
                    Some(m) => r matches Err(FuseError::InferenceError(msg)) && msg@
                        == "Invalid JSON output: "@ + m,
                },
            },
    {
        match &self.grammar {
            Grammar::Json | Grammar::JsonSchema(_) => {
                let t = text::string_from_chars(&text::trim(self.output_so_far.as_str()));
                json_verdict(parse_json_value(t.as_str()))
            },
            Grammar::Regex(pattern) => {
                if text::contains(self.output_so_far.as_str(), pattern.as_str())
                    || pattern.as_str().is_empty() {
                    Ok(())
                } else {
                    Err(
                        FuseError::InferenceError(
                            text::concat2("Output does not match regex: ", pattern.as_str()),
                        ),
                    )
                }
            },
        }
    }

    /// The output accumulated so far.
    pub fn output(&self) -> (r: &str)
        ensures
            r@ == self.output_so_far@,
    {
        self.output_so_far.as_str()
    }

    /// For each token of a vocabulary (indexed by token id), whether the grammar
    /// admits it next; a logit mask keeps the admitted ones.
    pub fn token_mask(&self, vocab: &Vec<String>) -> (r: Vec<bool>)
        ensures
            r@.len() == vocab@.len(),
            forall|i: int| 0 <= i < vocab@.len() ==> r@[i] == token_allowed(
                self.grammar,
                self.in_string,
                self.output_so_far@,
                #[trigger] vocab@[i]@,
            ),
    {
        let mut r: Vec<bool> = Vec::new();
        let mut i: usize = 0;
        while i < vocab.len()
            invariant
                i <= vocab@.len(),
                r@.len() == i,
                forall|j: int| 0 <= j < i ==> r@[j] == token_allowed(
                    self.grammar,
                    self.in_string,
                    self.output_so_far@,
                    #[trigger] vocab@[j]@,
                ),
            decreases vocab.len() - i,
        {
            r.push(self.is_token_allowed(vocab[i].as_str()));
            i = i + 1;
        }
        r
    }

    fn is_json_token_allowed(&self, token_text: &str) -> (r: bool)
        ensures
            r == json_token_allowed(self.in_string, self.output_so_far@, token_text@),
    {
        let t = text::trim(token_text);
        if t.len() == 0 {
            return true;
        }
        if self.in_string {
            return true;
        }
        if text::trim(self.output_so_far.as_str()).len() == 0 {
            let first = t[0];
            return first == '{' || first == '[' || first == '"';
        }
        let punct = text::chars_of("{}[]\",:.-+eE_ \t\n\r\\/");
        let mut i: usize = 0;
        while i < t.len()
            invariant
                i <= t@.len(),
                t@ == trimmed(token_text@),
                punct@ == "{}[]\",:.-+eE_ \t\n\r\\/"@,
                !self.in_string,
                t@.len() > 0,
                trimmed(self.output_so_far@).len() > 0,
                forall|k: int| 0 <= k < i ==> alphanumeric(#[trigger] t@[k]) || json_punct(t@[k]),
            decreases t.len() - i,
        {
            let c = t[i];
            if !text::is_alphanumeric(c) && !char_in(&punct, c) {
                assert(!(alphanumeric(t@[i as int]) || json_punct(t@[i as int])));
                return false;
            }
            i = i + 1;
        }
        true
    }

    fn is_regex_compatible(&self, token_text: &str, _pattern: &str) -> (r: bool)
        ensures
            r == (token_text@.len() > 0),
    {
        !token_text.is_empty()
    }
}

/// Whether `c` occurs in `v`.
fn char_in(v: &Vec<char>, c: char) -> (r: bool)
    ensures
        r == v@.contains(c),
{
    let mut i: usize = 0;
    while i < v.len()
        invariant
            i <= v@.len(),
            forall|k: int| 0 <= k < i ==> v@[k] != c,
        decreases v.len() - i,
    {
        if v[i] == c {
            return true;
        }
        i = i + 1;
    }
    false
}

/// Lexing a concatenation is lexing the second part from where the first left off:
/// feeding tokens one by one tracks the same state as feeding their concatenation.
pub proof fn lemma_lex_concat(st: LexState, a: Seq<char>, b: Seq<char>)
    ensures
        lex(st, a + b) == lex(lex(st, a), b),
    decreases b.len(),
{
    if b.len() == 0 {
        assert(a + b =~= a);
    } else {
        lemma_lex_concat(st, a, b.drop_last());
        assert((a + b).drop_last() =~= a + b.drop_last());
    }
}

/// Fed in two parts, a text passes through the same depths as fed at once: its
/// depths stay in range exactly when those of the first part do from the start and
/// those of the second part do from where the first left off.
pub proof fn lemma_depths_in_range_concat(st: LexState, a: Seq<char>, b: Seq<char>)
    ensures
        depths_in_range(st, a + b) <==> (depths_in_range(st, a) && depths_in_range(lex(st, a), b)),
{
    assert forall|k: int| 0 <= k <= a.len() implies (a + b).take(k) == #[trigger] a.take(k) by {
        assert((a + b).take(k) =~= a.take(k));
    }
    assert forall|k: int| 0 <= k <= b.len() implies lex(st, (a + b).take(a.len() + k)) == #[trigger] lex(
        lex(st, a),
        b.take(k),
    ) by {
        assert((a + b).take(a.len() + k) =~= a + b.take(k));
        lemma_lex_concat(st, a, b.take(k));
    }
    if depths_in_range(st, a) && depths_in_range(lex(st, a), b) {
        assert forall|k: int| 0 <= k <= (a + b).len() implies i32::MIN <= #[trigger] lex(st, (a + b).take(k)).depth
            <= i32::MAX by {
            if k <= a.len() {
                assert(lex(st, a.take(k)).depth <= i32::MAX);
            } else {
                let j = k - a.len();
                assert(lex(lex(st, a), b.take(j)).depth <= i32::MAX);
                assert(lex(st, (a + b).take(a.len() + j)) == lex(lex(st, a), b.take(j)));
            }
        }
    }
    if depths_in_range(st, a + b) {
        assert forall|k: int| 0 <= k <= a.len() implies i32::MIN <= #[trigger] lex(st, a.take(k)).depth
            <= i32::MAX by {
            assert(lex(st, (a + b).take(k)).depth <= i32::MAX);
        }
        assert forall|k: int| 0 <= k <= b.len() implies i32::MIN <= #[trigger] lex(lex(st, a), b.take(k)).depth
            <= i32::MAX by {
            assert(lex(st, (a + b).take(a.len() + k)).depth <= i32::MAX);
        }
    }
}

/// Each character moves the depth by at most one.
pub proof fn lemma_lex_depth_bound(st: LexState, s: Seq<char>)
    ensures
        st.depth - s.len() <= lex(st, s).depth <= st.depth + s.len(),
    decreases s.len(),
{
    if s.len() > 0 {
        lemma_lex_depth_bound(st, s.drop_last());
    }
}

} // verus!
