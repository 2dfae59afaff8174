//! A tokenizer for JavaScript and TypeScript source, precise enough to find
//! module specifiers: words, quoted strings, regular-expression literals,
//! template literals and single punctuation marks. Comments are skipped, and
//! the ignore pragma is recorded by line. The code inside a template
//! substitution (`${ ... }`) is read as code. A `/` that does not open a
//! comment starts a regular expression where a value may begin (at the
//! start, after punctuation other than `)`, `]` and `}`, and after a keyword
//! such as `return`), and is division elsewhere. Lines are counted from zero
//! (the number of line breaks before a position).

use vstd::prelude::*;
use crate::text::slice_eq;

verus! {

/// The kind of a token.
#[derive(Clone, Copy, PartialEq, Eq, Structural, Debug)]
pub enum TokenKind {
    /// A run of identifier characters: a name, a keyword or a number.
    Word,
    /// A quoted string; its text is what stands between the quotes, as written.
    Str,
    /// A regular-expression literal; its text is what stands between the
    /// slashes, as written.
    Regex,
    /// The end of a template literal (its text is empty).
    Template,
    /// Any other single character.
    Punct,
}

/// A token, with the line on which it starts.
#[derive(Debug)]
pub struct Token {
    pub kind: TokenKind,
    pub text: Vec<char>,
    pub line: usize,
}

/// A token as a mathematical value.
pub struct TokenView {
    pub kind: TokenKind,
    pub text: Seq<char>,
    pub line: nat,
}

impl View for Token {
    type V = TokenView;

    open spec fn view(&self) -> TokenView {
        TokenView { kind: self.kind, text: self.text@, line: self.line as nat }
    }
}

/// What the tokenizer is in the middle of.
#[derive(Clone, Copy, PartialEq, Eq, Structural, Debug)]
pub enum Mode {
    Normal,
    Word,
    Str(char),
    StrEscape(char),
    LineComment,
    BlockOpen,
    Block,
    BlockClose,
    Template,
    TemplateEscape,
    /// At the `{` of a `${` in a template.
    TemplateOpen,
    Regex,
    RegexEscape,
    RegexClass,
    RegexClassEscape,
}

/// The state of the tokenizer between two characters. `subst` holds, for
/// each template substitution that is open, innermost last, how many of its
/// own braces are open.
pub struct LexState {
    pub mode: Mode,
    pub line: nat,
    pub tokens: Seq<TokenView>,
    pub pragmas: Seq<nat>,
    pub cur: Seq<char>,
    pub tok_line: nat,
    pub subst: Seq<nat>,
}

/// The ignore pragma, `// pants: no-infer-dep`.
pub open spec fn pragma_text() -> Seq<char> {
    seq!['/', '/', ' ', 'p', 'a', 'n', 't', 's', ':', ' ', 'n', 'o', '-', 'i', 'n', 'f', 'e', 'r', '-', 'd', 'e', 'p']
}

/// A character that would make the pragma part of a longer word.
pub open spec fn continues_word(c: char) -> bool {
    is_word_char(c) || c == '-'
}

/// The pragma, as a whole token, starts at position `i` of `src`.
pub open spec fn pragma_at(src: Seq<char>, i: int) -> bool {
    let n = pragma_text().len();
    &&& i + n <= src.len()
    &&& src.subrange(i, i + n) == pragma_text()
    &&& (i + n == src.len() || !continues_word(src[i + n]))
}

/// A character of a word: an ASCII letter or digit, `_`, `$`, or any
/// character outside ASCII.
pub open spec fn is_word_char(c: char) -> bool {
    ('a' <= c && c <= 'z') || ('A' <= c && c <= 'Z') || ('0' <= c && c <= '9') || c == '_' || c
        == '$' || (c as u32) > 127
}

/// A keyword after which an expression, and so a regular expression, may
/// begin.
pub open spec fn is_regex_keyword(w: Seq<char>) -> bool {
    w == seq!['r', 'e', 't', 'u', 'r', 'n'] ||
        w == seq!['t', 'y', 'p', 'e', 'o', 'f'] ||
        w == seq!['c', 'a', 's', 'e'] ||
        w == seq!['d', 'o'] ||
        w == seq!['e', 'l', 's', 'e'] ||
        w == seq!['i', 'n'] ||
        w == seq!['o', 'f'] ||
        w == seq!['n', 'e', 'w'] ||
        w == seq!['d', 'e', 'l', 'e', 't', 'e'] ||
        w == seq!['v', 'o', 'i', 'd'] ||
        w == seq!['t', 'h', 'r', 'o', 'w'] ||
        w == seq!['y', 'i', 'e', 'l', 'd'] ||
        w == seq!['a', 'w', 'a', 'i', 't'] ||
        w == seq!['i', 'n', 's', 't', 'a', 'n', 'c', 'e', 'o', 'f']
}

/// A `/` after the tokens `toks` begins a regular expression.
pub open spec fn regex_allowed(toks: Seq<TokenView>) -> bool {
    toks.len() == 0 || {
        let t = toks.last();
        (t.kind == TokenKind::Punct && t.text != seq![')'] && t.text != seq![']'] && t.text != seq!['}'])
            || (t.kind == TokenKind::Word && is_regex_keyword(t.text))
    }
}

/// The state before the first character.
pub open spec fn lex_start() -> LexState {
    LexState {
        mode: Mode::Normal,
        line: 0,
        tokens: Seq::empty(),
        pragmas: Seq::empty(),
        cur: Seq::empty(),
        tok_line: 0,
        subst: Seq::empty(),
    }
}

/// The state after a pending word is emitted.
pub open spec fn flush_word(st: LexState) -> LexState {
    LexState {
        mode: Mode::Normal,
        tokens: st.tokens.push(TokenView { kind: TokenKind::Word, text: st.cur, line: st.tok_line }),
        cur: Seq::empty(),
        ..st
    }
}

/// `st` with the punctuation mark `c` emitted.
pub open spec fn push_punct(st: LexState, c: char) -> LexState {
    LexState {
        tokens: st.tokens.push(TokenView { kind: TokenKind::Punct, text: seq![c], line: st.line }),
        ..st
    }
}

/// Reading character `i` of `src` outside any token or comment.
pub open spec fn normal_step(src: Seq<char>, st: LexState, i: int) -> LexState {
    let c = src[i];
    let next_is = |d: char| i + 1 < src.len() && src[i + 1] == d;
    let depth = st.subst.len();
    if c == '\n' {
        LexState { line: st.line + 1, ..st }
    } else if c == ' ' || c == '\t' || c == '\r' {
        st
    } else if c == '/' && next_is('/') {
        LexState {
            mode: Mode::LineComment,
            pragmas: if pragma_at(src, i) {
                st.pragmas.push(st.line)
            } else {
                st.pragmas
            },
            ..st
        }
    } else if c == '/' && next_is('*') {
        LexState { mode: Mode::BlockOpen, ..st }
    } else if c == '/' && regex_allowed(st.tokens) {
        LexState { mode: Mode::Regex, cur: Seq::empty(), tok_line: st.line, ..st }
    } else if c == '\'' || c == '"' {
        LexState { mode: Mode::Str(c), cur: Seq::empty(), tok_line: st.line, ..st }
    } else if c == '`' {
        LexState { mode: Mode::Template, ..st }
    } else if is_word_char(c) {
        LexState { mode: Mode::Word, cur: seq![c], tok_line: st.line, ..st }
    } else if c == '{' && depth > 0 {
        push_punct(LexState { subst: st.subst.update(depth - 1, st.subst.last() + 1), ..st }, c)
    } else if c == '}' && depth > 0 && st.subst.last() == 0 {
        LexState { mode: Mode::Template, subst: st.subst.drop_last(), ..st }
    } else if c == '}' && depth > 0 {
        push_punct(LexState { subst: st.subst.update(depth - 1, (st.subst.last() - 1) as nat), ..st }, c)
    } else {
        push_punct(st, c)
    }
}

/// Reading character `i` of `src` in state `st`.
pub open spec fn lex_step(src: Seq<char>, st: LexState, i: int) -> LexState {
    let c = src[i];
    let nl: nat = if c == '\n' { 1 } else { 0 };
    match st.mode {
        Mode::Normal => normal_step(src, st, i),
        Mode::Word => if is_word_char(c) {
            LexState { cur: st.cur.push(c), ..st }
        } else {
            normal_step(src, flush_word(st), i)
        },
        Mode::Str(q) => if c == q {
            LexState {
                mode: Mode::Normal,
                tokens: st.tokens.push(TokenView { kind: TokenKind::Str, text: st.cur, line: st.tok_line }),
                cur: Seq::empty(),
                ..st
            }
        } else if c == '\\' {
            LexState { mode: Mode::StrEscape(q), cur: st.cur.push(c), ..st }
        } else if c == '\n' {
            LexState { mode: Mode::Normal, line: st.line + 1, ..st }
        } else {
            LexState { cur: st.cur.push(c), ..st }
        },
        Mode::StrEscape(q) => LexState { mode: Mode::Str(q), cur: st.cur.push(c), line: st.line + nl, ..st },
        Mode::LineComment => if c == '\n' {
            LexState { mode: Mode::Normal, line: st.line + 1, ..st }
        } else if pragma_at(src, i) {
            LexState { pragmas: st.pragmas.push(st.line), ..st }
        } else {
            st
        },
        Mode::BlockOpen => LexState { mode: Mode::Block, ..st },
        Mode::Block => if c == '\n' {
            LexState { line: st.line + 1, ..st }
        } else if c == '*' && i + 1 < src.len() && src[i + 1] == '/' {
            LexState { mode: Mode::BlockClose, ..st }
        } else {
            st
        },
        Mode::BlockClose => LexState { mode: Mode::Normal, ..st },
        Mode::Template => if c == '`' {
            LexState {
                mode: Mode::Normal,
                tokens: st.tokens.push(TokenView { kind: TokenKind::Template, text: Seq::empty(), line: st.line }),
                ..st
            }
        } else if c == '\\' {
            LexState { mode: Mode::TemplateEscape, ..st }
        } else if c == '$' && i + 1 < src.len() && src[i + 1] == '{' {
            LexState { mode: Mode::TemplateOpen, ..st }
        } else {
            LexState { line: st.line + nl, ..st }
        },
        Mode::TemplateEscape => LexState { mode: Mode::Template, line: st.line + nl, ..st },
        Mode::TemplateOpen => LexState { mode: Mode::Normal, subst: st.subst.push(0), ..st },
        Mode::Regex => if c == '/' {
            LexState {
                mode: Mode::Normal,
                tokens: st.tokens.push(TokenView { kind: TokenKind::Regex, text: st.cur, line: st.tok_line }),
                cur: Seq::empty(),
                ..st
            }
        } else if c == '\n' {
            LexState { mode: Mode::Normal, line: st.line + 1, ..st }
        } else if c == '\\' {
            LexState { mode: Mode::RegexEscape, cur: st.cur.push(c), ..st }
        } else if c == '[' {
            LexState { mode: Mode::RegexClass, cur: st.cur.push(c), ..st }
        } else {
            LexState { cur: st.cur.push(c), ..st }
        },
        Mode::RegexEscape => if c == '\n' {
            LexState { mode: Mode::Normal, line: st.line + 1, ..st }
        } else {
            LexState { mode: Mode::Regex, cur: st.cur.push(c), ..st }
        },
        Mode::RegexClass => if c == '\n' {
            LexState { mode: Mode::Normal, line: st.line + 1, ..st }
        } else if c == '\\' {
            LexState { mode: Mode::RegexClassEscape, cur: st.cur.push(c), ..st }
        } else if c == ']' {
            LexState { mode: Mode::Regex, cur: st.cur.push(c), ..st }
        } else {
            LexState { cur: st.cur.push(c), ..st }
        },
        Mode::RegexClassEscape => if c == '\n' {
            LexState { mode: Mode::Normal, line: st.line + 1, ..st }
        } else {
            LexState { mode: Mode::RegexClass, cur: st.cur.push(c), ..st }
        },
    }
}

/// The state after the first `n` characters of `src`.
pub open spec fn lex_upto(src: Seq<char>, n: nat) -> LexState
    decreases n,
{
    if n == 0 {
        lex_start()
    } else {
        lex_step(src, lex_upto(src, (n - 1) as nat), n - 1)
    }
}

/// The state after all of `src`, with a word that runs to the end emitted.
/// An unterminated string or regular expression gives no token.
pub open spec fn lex(src: Seq<char>) -> LexState {
    let st = lex_upto(src, src.len());
    if st.mode == Mode::Word {
        flush_word(st)
    } else {
        st
    }
}

/// The tokens of `src`.
pub open spec fn tokens_of(src: Seq<char>) -> Seq<TokenView> {
    lex(src).tokens
}

/// The lines of `src` that carry the ignore pragma.
pub open spec fn pragma_lines_of(src: Seq<char>) -> Seq<nat> {
    lex(src).pragmas
}

/// The tokens as values.
pub open spec fn token_views(toks: Seq<Token>) -> Seq<TokenView> {
    toks.map_values(|t: Token| t@)
}

/// Line numbers as values.
pub open spec fn line_views(lines: Seq<usize>) -> Seq<nat> {
    lines.map_values(|l: usize| l as nat)
}

struct Lexer {
    mode: Mode,
    line: usize,
    tokens: Vec<Token>,
    pragmas: Vec<usize>,
    cur: Vec<char>,
    tok_line: usize,
    subst: Vec<usize>,
}

impl Lexer {
    spec fn state(&self) -> LexState {
        LexState {
            mode: self.mode,
            line: self.line as nat,
            tokens: token_views(self.tokens@),
            pragmas: line_views(self.pragmas@),
            cur: self.cur@,
            tok_line: self.tok_line as nat,
            subst: line_views(self.subst@),
        }
    }

    /// The bounds that keep the counters from overflowing before
    /// character `i`.
    spec fn bounded(&self, i: int) -> bool {
        &&& self.line <= i
        &&& forall|k: int| 0 <= k < self.subst.len() ==> #[trigger] self.subst@[k] <= i
    }

    fn emit(&mut self, kind: TokenKind, text: Vec<char>, line: usize)
        ensures
            final(self).state() == (LexState {
                tokens: old(self).state().tokens.push(TokenView { kind, text: text@, line: line as nat }),
                ..old(self).state()
            }),
            final(self).line == old(self).line,
            final(self).subst == old(self).subst,
    {
        let ghost t = TokenView { kind, text: text@, line: line as nat };
        self.tokens.push(Token { kind, text, line });
        assert(token_views(final(self).tokens@) =~= token_views(old(self).tokens@).push(t));
    }

    fn emit_punct(&mut self, c: char)
        ensures
            final(self).state() == push_punct(old(self).state(), c),
            final(self).line == old(self).line,
            final(self).subst == old(self).subst,
    {
        let text = vec![c];
        assert(text@ =~= seq![c]);
        let line = self.line;
        self.emit(TokenKind::Punct, text, line);
    }

    fn take_cur(&mut self, kind: TokenKind)
        ensures
            final(self).state() == (LexState {
                mode: Mode::Normal,
                tokens: old(self).state().tokens.push(
                    TokenView { kind, text: old(self).cur@, line: old(self).tok_line as nat },
                ),
                cur: Seq::empty(),
                ..old(self).state()
            }),
            final(self).line == old(self).line,
            final(self).subst == old(self).subst,
    {
        let mut text: Vec<char> = Vec::new();
        std::mem::swap(&mut text, &mut self.cur);
        let line = self.tok_line;
        self.emit(kind, text, line);
        self.mode = Mode::Normal;
    }

    fn flush_word(&mut self)
        ensures
            final(self).state() == flush_word(old(self).state()),
            final(self).line == old(self).line,
            final(self).subst == old(self).subst,
    {
        self.take_cur(TokenKind::Word);
    }

    fn regex_allowed_exec(&self) -> (r: bool)
        ensures
            r == regex_allowed(self.state().tokens),
    {
        let n = self.tokens.len();
        if n == 0 {
            return true;
        }
        let t = &self.tokens[n - 1];
        assert(self.state().tokens.last() == t@);
        if t.kind == TokenKind::Punct {
            let closing = t.text.len() == 1 && (t.text[0] == ')' || t.text[0] == ']' || t.text[0]
                == '}');
            assert(t.text@ == seq![')'] || t.text@ == seq![']'] || t.text@ == seq!['}'] ==> closing);
            if closing {
                assert(t.text@ =~= seq![t.text@[0]]);
            }
            !closing
        } else if t.kind == TokenKind::Word {
            regex_keyword_exec(&t.text)
        } else {
            false
        }
    }

    fn normal_step(&mut self, src: &Vec<char>, i: usize)
        requires
            i < src.len(),
            old(self).bounded(i as int),
        ensures
            final(self).state() == normal_step(src@, old(self).state(), i as int),
            final(self).bounded(i + 1),
    {
        let c = src[i];
        let next_slash = i + 1 < src.len() && src[i + 1] == '/';
        let next_star = i + 1 < src.len() && src[i + 1] == '*';
        let depth = self.subst.len();
        if c == '\n' {
            self.line = self.line + 1;
        } else if c == ' ' || c == '\t' || c == '\r' {
        } else if c == '/' && next_slash {
            self.mode = Mode::LineComment;
            if pragma_at_exec(src, i) {
                self.push_pragma();
            }
        } else if c == '/' && next_star {
            self.mode = Mode::BlockOpen;
        } else if c == '/' && self.regex_allowed_exec() {
            self.mode = Mode::Regex;
            self.cur = Vec::new();
            self.tok_line = self.line;
            assert(self.cur@ =~= Seq::<char>::empty());
        } else if c == '\'' || c == '"' {
            self.mode = Mode::Str(c);
            self.cur = Vec::new();
            self.tok_line = self.line;
            assert(self.cur@ =~= Seq::<char>::empty());
        } else if c == '`' {
            self.mode = Mode::Template;
        } else if is_word_char_exec(c) {
            self.mode = Mode::Word;
            self.cur = vec![c];
            self.tok_line = self.line;
            assert(self.cur@ =~= seq![c]);
        } else if c == '{' && depth > 0 {
            let top = self.subst[depth - 1];
            let ghost before = self.subst@;
            self.subst.set(depth - 1, top + 1);
            assert(line_views(self.subst@) =~= line_views(before).update(depth - 1, line_views(before).last() + 1));
            self.emit_punct(c);
        } else if c == '}' && depth > 0 && self.subst[depth - 1] == 0 {
            let ghost before = self.subst@;
            let _ = self.subst.pop();
            assert(line_views(self.subst@) =~= line_views(before).drop_last());
            self.mode = Mode::Template;
        } else if c == '}' && depth > 0 {
            let top = self.subst[depth - 1];
            let ghost before = self.subst@;
            self.subst.set(depth - 1, top - 1);
            assert(line_views(self.subst@) =~= line_views(before).update(depth - 1, (line_views(before).last() - 1) as nat));
            self.emit_punct(c);
        } else {
            self.emit_punct(c);
        }
    }

    fn push_pragma(&mut self)
        ensures
            final(self).state() == (LexState {
                pragmas: old(self).state().pragmas.push(old(self).line as nat),
                ..old(self).state()
            }),
            final(self).line == old(self).line,
            final(self).subst == old(self).subst,
    {
        let ghost before = self.pragmas@;
        self.pragmas.push(self.line);
        assert(line_views(self.pragmas@) =~= line_views(before).push(self.line as nat));
    }

    fn step(&mut self, src: &Vec<char>, i: usize)
        requires
            i < src.len(),
            old(self).bounded(i as int),
        ensures
            final(self).state() == lex_step(src@, old(self).state(), i as int),
            final(self).bounded(i + 1),
    {
        let c = src[i];
        let nl: usize = if c == '\n' { 1 } else { 0 };
        match self.mode {
            Mode::Normal => self.normal_step(src, i),
            Mode::Word => {
                if is_word_char_exec(c) {
                    self.cur.push(c);
                } else {
                    self.flush_word();
                    self.normal_step(src, i);
                }
            },
            Mode::Str(q) => {
                if c == q {
                    self.take_cur(TokenKind::Str);
                } else if c == '\\' {
                    self.mode = Mode::StrEscape(q);
                    self.cur.push(c);
                } else if c == '\n' {
                    self.mode = Mode::Normal;
                    self.line = self.line + 1;
                } else {
                    self.cur.push(c);
                }
            },
            Mode::StrEscape(q) => {
                self.mode = Mode::Str(q);
                self.cur.push(c);
                self.line = self.line + nl;
            },
            Mode::LineComment => {
                if c == '\n' {
                    self.mode = Mode::Normal;
                    self.line = self.line + 1;
                } else if pragma_at_exec(src, i) {
                    self.push_pragma();
                }
            },
            Mode::BlockOpen => {
                self.mode = Mode::Block;
            },
            Mode::Block => {
                if c == '\n' {
                    self.line = self.line + 1;
                } else if c == '*' && i + 1 < src.len() && src[i + 1] == '/' {
                    self.mode = Mode::BlockClose;
                }
            },
            Mode::BlockClose => {
                self.mode = Mode::Normal;
            },
            Mode::Template => {
                if c == '`' {
                    let line = self.line;
                    self.emit(TokenKind::Template, Vec::new(), line);
                    self.mode = Mode::Normal;
                } else if c == '\\' {
                    self.mode = Mode::TemplateEscape;
                } else if c == '$' && i + 1 < src.len() && src[i + 1] == '{' {
                    self.mode = Mode::TemplateOpen;
                } else {
                    self.line = self.line + nl;
                }
            },
            Mode::TemplateEscape => {
                self.mode = Mode::Template;
                self.line = self.line + nl;
            },
            Mode::TemplateOpen => {
                let ghost before = self.subst@;
                self.subst.push(0);
                assert(line_views(self.subst@) =~= line_views(before).push(0));
                self.mode = Mode::Normal;
            },
            Mode::Regex => {
                if c == '/' {
                    self.take_cur(TokenKind::Regex);
                } else if c == '\n' {
                    self.mode = Mode::Normal;
                    self.line = self.line + 1;
                } else if c == '\\' {
                    self.mode = Mode::RegexEscape;
                    self.cur.push(c);
                } else if c == '[' {
                    self.mode = Mode::RegexClass;
                    self.cur.push(c);
                } else {
                    self.cur.push(c);
                }
            },
            Mode::RegexEscape => {
                if c == '\n' {
                    self.mode = Mode::Normal;
                    self.line = self.line + 1;
                } else {
                    self.mode = Mode::Regex;
                    self.cur.push(c);
                }
            },
            Mode::RegexClass => {
                if c == '\n' {
                    self.mode = Mode::Normal;
                    self.line = self.line + 1;
                } else if c == '\\' {
                    self.mode = Mode::RegexClassEscape;
                    self.cur.push(c);
                } else if c == ']' {
                    self.mode = Mode::Regex;
                    self.cur.push(c);
                } else {
                    self.cur.push(c);
                }
            },
            Mode::RegexClassEscape => {
                if c == '\n' {
                    self.mode = Mode::Normal;
                    self.line = self.line + 1;
                } else {
                    self.mode = Mode::RegexClass;
                    self.cur.push(c);
                }
            },
        }
    }
}

fn is_word_char_exec(c: char) -> (r: bool)
    ensures
        r == is_word_char(c),
{
    ('a' <= c && c <= 'z') || ('A' <= c && c <= 'Z') || ('0' <= c && c <= '9') || c == '_' || c
        == '$' || (c as u32) > 127
}

fn chars_eq(w: &Vec<char>, k: &Vec<char>) -> (r: bool)
    ensures
        r == (w@ == k@),
{
    if w.len() != k.len() {
        return false;
    }
    let r = slice_eq(w, 0, k, 0, k.len());
    assert(w@.subrange(0, k.len() as int) =~= w@);
    assert(k@.subrange(0, k.len() as int) =~= k@);
    r
}

fn regex_keyword_exec(w: &Vec<char>) -> (r: bool)
    ensures
        r == is_regex_keyword(w@),
{
    chars_eq(w, &vec!['r', 'e', 't', 'u', 'r', 'n']) ||
        chars_eq(w, &vec!['t', 'y', 'p', 'e', 'o', 'f']) ||
        chars_eq(w, &vec!['c', 'a', 's', 'e']) ||
        chars_eq(w, &vec!['d', 'o']) ||
        chars_eq(w, &vec!['e', 'l', 's', 'e']) ||
        chars_eq(w, &vec!['i', 'n']) ||
        chars_eq(w, &vec!['o', 'f']) ||
        chars_eq(w, &vec!['n', 'e', 'w']) ||
        chars_eq(w, &vec!['d', 'e', 'l', 'e', 't', 'e']) ||
        chars_eq(w, &vec!['v', 'o', 'i', 'd']) ||
        chars_eq(w, &vec!['t', 'h', 'r', 'o', 'w']) ||
        chars_eq(w, &vec!['y', 'i', 'e', 'l', 'd']) ||
        chars_eq(w, &vec!['a', 'w', 'a', 'i', 't']) ||
        chars_eq(w, &vec!['i', 'n', 's', 't', 'a', 'n', 'c', 'e', 'o', 'f'])
}

fn pragma_at_exec(src: &Vec<char>, i: usize) -> (r: bool)
    requires
        i < src.len(),
    ensures
        r == pragma_at(src@, i as int),
{
    let p: Vec<char> = vec!['/', '/', ' ', 'p', 'a', 'n', 't', 's', ':', ' ', 'n', 'o', '-', 'i', 'n', 'f', 'e', 'r', '-', 'd', 'e', 'p'];
    assert(p@ =~= pragma_text());
    if p.len() <= src.len() - i {
        let same = slice_eq(src, i, &p, 0, p.len());
        assert(p@.subrange(0, p.len() as int) =~= p@);
        let end = i + p.len();
        same && (end == src.len() || !(is_word_char_exec(src[end]) || src[end] == '-'))
    } else {
        false
    }
}

/// Splits `src` into its tokens, and finds the lines that carry the ignore
/// pragma, as `tokens_of` and `pragma_lines_of` describe.
pub fn lex_source(src: &Vec<char>) -> (r: (Vec<Token>, Vec<usize>))
    ensures
        token_views(r.0@) == tokens_of(src@),
        line_views(r.1@) == pragma_lines_of(src@),
{
    let mut lx = Lexer {
        mode: Mode::Normal,
        line: 0,
        tokens: Vec::new(),
        pragmas: Vec::new(),
        cur: Vec::new(),
        tok_line: 0,
        subst: Vec::new(),
    };
    assert(lx.state().tokens =~= Seq::<TokenView>::empty());
    assert(lx.state().pragmas =~= Seq::<nat>::empty());
    assert(lx.state().cur =~= Seq::<char>::empty());
    assert(lx.state().subst =~= Seq::<nat>::empty());
    for i in 0..src.len()
        invariant
            lx.state() == lex_upto(src@, i as nat),
            lx.bounded(i as int),
    {
        lx.step(src, i);
    }
    if lx.mode == Mode::Word {
        lx.flush_word();
    }
    (lx.tokens, lx.pragmas)
}

} // verus!
