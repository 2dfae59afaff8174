//! Finds the module specifiers of a source file: static imports and
//! re-exports with a `from` clause, and `import(...)` / `require(...)` calls
//! on a string literal, less those whose attachment line carries the ignore
//! pragma.

use vstd::prelude::*;
use crate::lexer::{
    lex_source, line_views, pragma_lines_of, token_views, tokens_of, Token, TokenKind, TokenView,
};
use crate::text::{chars_of, slice_eq, string_of};

verus! {

pub open spec fn import_word() -> Seq<char> {
    seq!['i', 'm', 'p', 'o', 'r', 't']
}

pub open spec fn require_word() -> Seq<char> {
    seq!['r', 'e', 'q', 'u', 'i', 'r', 'e']
}

pub open spec fn export_word() -> Seq<char> {
    seq!['e', 'x', 'p', 'o', 'r', 't']
}

pub open spec fn from_word() -> Seq<char> {
    seq!['f', 'r', 'o', 'm']
}

pub open spec fn type_word() -> Seq<char> {
    seq!['t', 'y', 'p', 'e']
}

pub open spec fn new_word() -> Seq<char> {
    seq!['n', 'e', 'w']
}

/// `t` is the word `w`.
pub open spec fn is_word(t: TokenView, w: Seq<char>) -> bool {
    t.kind == TokenKind::Word && t.text == w
}

/// `t` is the punctuation mark `c`.
pub open spec fn is_punct(t: TokenView, c: char) -> bool {
    t.kind == TokenKind::Punct && t.text == seq![c]
}

/// `import("M")` or `require("M")` starts at token `i`: the specifier and the
/// line of the closing parenthesis. A call on a member (`x.require(...)`) and
/// a `new require(...)` are no such call.
pub open spec fn call_at(t: Seq<TokenView>, i: int) -> Option<(Seq<char>, nat)> {
    if 0 <= i && i + 3 < t.len() && (is_word(t[i], import_word()) || is_word(t[i], require_word()))
        && is_punct(t[i + 1], '(') && t[i + 2].kind == TokenKind::Str && is_punct(t[i + 3], ')')
        && !(i > 0 && (is_punct(t[i - 1], '.') || is_word(t[i - 1], new_word()))) {
        Some((t[i + 2].text, t[i + 3].line))
    } else {
        None
    }
}

/// The `from "M"` clause of the statement that goes on at token `j`: the
/// specifier and the line of `from`. The statement ends at `;` or where a
/// new `import` or `export` begins.
pub open spec fn from_clause(t: Seq<TokenView>, j: int) -> Option<(Seq<char>, nat)>
    decreases t.len() - j,
{
    if j < 0 || j >= t.len() {
        None
    } else if is_punct(t[j], ';') || is_word(t[j], import_word()) || is_word(t[j], export_word()) {
        None
    } else if is_word(t[j], from_word()) && j + 1 < t.len() && t[j + 1].kind == TokenKind::Str {
        Some((t[j + 1].text, t[j].line))
    } else {
        from_clause(t, j + 1)
    }
}

/// `import … from "M"` or `export *|{…}|type … from "M"` starts at token
/// `i`: the specifier and the line of `from`. An import of a bare string
/// (`import "M"`) names no binding and gives nothing.
pub open spec fn declaration_at(t: Seq<TokenView>, i: int) -> Option<(Seq<char>, nat)> {
    if 0 <= i && i + 1 < t.len() && !(i > 0 && is_punct(t[i - 1], '.')) {
        if is_word(t[i], import_word()) && !is_punct(t[i + 1], '(') && !is_punct(t[i + 1], '.')
            && t[i + 1].kind != TokenKind::Str {
            from_clause(t, i + 1)
        } else if is_word(t[i], export_word()) && (is_punct(t[i + 1], '*') || is_punct(t[i + 1], '{')
            || is_word(t[i + 1], type_word())) {
            from_clause(t, i + 1)
        } else {
            None
        }
    } else {
        None
    }
}

/// The construct that starts at token `i`, if any: its specifier and its
/// attachment line.
pub open spec fn construct_at(t: Seq<TokenView>, i: int) -> Option<(Seq<char>, nat)> {
    if call_at(t, i) is Some {
        call_at(t, i)
    } else {
        declaration_at(t, i)
    }
}

/// The construct at token `i` has specifier `s` and is not suppressed by a
/// pragma.
pub open spec fn found(t: Seq<TokenView>, pragmas: Seq<nat>, i: int, s: Seq<char>) -> bool {
    construct_at(t, i) matches Some((s2, l)) && s2 == s && !pragmas.contains(l)
}

/// The specifiers of all constructs of `t` that no pragma suppresses.
pub open spec fn collected(t: Seq<TokenView>, pragmas: Seq<nat>) -> Set<Seq<char>> {
    Set::new(|s: Seq<char>| exists|i: int| 0 <= i < t.len() && #[trigger] found(t, pragmas, i, s))
}

/// The specifiers that the source text `src` imports.
pub open spec fn raw_imports(src: Seq<char>) -> Set<Seq<char>> {
    collected(tokens_of(src), pragma_lines_of(src))
}

/// Strings as values.
pub open spec fn string_views(v: Seq<String>) -> Seq<Seq<char>> {
    v.map_values(|s: String| s@)
}

/// The strings of `v`, each once, as a set.
pub open spec fn distinct_set(v: Seq<Seq<char>>, s: Set<Seq<char>>) -> bool {
    &&& v.no_duplicates()
    &&& v.to_set() == s
}

struct Words {
    import: Vec<char>,
    require: Vec<char>,
    export: Vec<char>,
    from: Vec<char>,
    type_: Vec<char>,
    new: Vec<char>,
}

impl Words {
    spec fn wf(&self) -> bool {
        &&& self.import@ == import_word()
        &&& self.require@ == require_word()
        &&& self.export@ == export_word()
        &&& self.from@ == from_word()
        &&& self.type_@ == type_word()
        &&& self.new@ == new_word()
    }

    fn new() -> (r: Words)
        ensures
            r.wf(),
    {
        let r = Words {
            import: vec!['i', 'm', 'p', 'o', 'r', 't'],
            require: vec!['r', 'e', 'q', 'u', 'i', 'r', 'e'],
            export: vec!['e', 'x', 'p', 'o', 'r', 't'],
            from: vec!['f', 'r', 'o', 'm'],
            type_: vec!['t', 'y', 'p', 'e'],
            new: vec!['n', 'e', 'w'],
        };
        assert(r.import@ =~= import_word());
        assert(r.require@ =~= require_word());
        assert(r.export@ =~= export_word());
        assert(r.from@ =~= from_word());
        assert(r.type_@ =~= type_word());
        assert(r.new@ =~= new_word());
        r
    }
}

fn word_is(t: &Token, w: &Vec<char>) -> (r: bool)
    ensures
        r == is_word(t@, w@),
{
    if t.kind == TokenKind::Word && t.text.len() == w.len() {
        let r = slice_eq(&t.text, 0, w, 0, w.len());
        assert(t.text@.subrange(0, w.len() as int) =~= t.text@);
        assert(w@.subrange(0, w.len() as int) =~= w@);
        r
    } else {
        false
    }
}

fn punct_is(t: &Token, c: char) -> (r: bool)
    ensures
        r == is_punct(t@, c),
{
    if t.kind == TokenKind::Punct && t.text.len() == 1 && t.text[0] == c {
        assert(t.text@ =~= seq![c]);
        true
    } else {
        false
    }
}

/// The position of the `from` word of the clause that `from_clause` finds.
fn from_clause_exec(toks: &Vec<Token>, j0: usize, w: &Words) -> (r: Option<usize>)
    requires
        w.wf(),
    ensures
        ({
            let t = token_views(toks@);
            match r {
                Some(k) => k + 1 < t.len() && from_clause(t, j0 as int) == Some(
                    (t[k + 1].text, t[k as int].line),
                ),
                None => from_clause(t, j0 as int) is None,
            }
        }),
{
    let ghost t = token_views(toks@);
    let mut j = j0;
    while j < toks.len()
        invariant
            t == token_views(toks@),
            w.wf(),
            j0 <= j,
            from_clause(t, j0 as int) == from_clause(t, j as int),
        decreases toks.len() - j,
    {
        let tok = &toks[j];
        if punct_is(tok, ';') || word_is(tok, &w.import) || word_is(tok, &w.export) {
            return None;
        }
        if word_is(tok, &w.from) && j + 1 < toks.len() && toks[j + 1].kind == TokenKind::Str {
            return Some(j);
        }
        j = j + 1;
    }
    None
}

/// Where `construct_at` finds a construct at token `i`: the position of the
/// string token that holds its specifier, and its attachment line.
fn construct_at_exec(toks: &Vec<Token>, i: usize, w: &Words) -> (r: Option<(usize, usize)>)
    requires
        w.wf(),
        i < toks.len(),
    ensures
        ({
            let t = token_views(toks@);
            match r {
                Some((k, l)) => k < t.len() && construct_at(t, i as int) == Some(
                    (t[k as int].text, l as nat),
                ),
                None => construct_at(t, i as int) is None,
            }
        }),
{
    let ghost t = token_views(toks@);
    let n = toks.len();
    let after_dot = i > 0 && punct_is(&toks[i - 1], '.');
    let after_new = i > 0 && word_is(&toks[i - 1], &w.new);
    if 3 < n - i && (word_is(&toks[i], &w.import) || word_is(&toks[i], &w.require)) && punct_is(
        &toks[i + 1],
        '(',
    ) && toks[i + 2].kind == TokenKind::Str && punct_is(&toks[i + 3], ')') && !(after_dot
        || after_new) {
        return Some((i + 2, toks[i + 3].line));
    }
    if i + 1 < n && !after_dot {
        let next = &toks[i + 1];
        let opens = if word_is(&toks[i], &w.import) {
            !punct_is(next, '(') && !punct_is(next, '.') && next.kind != TokenKind::Str
        } else if word_is(&toks[i], &w.export) {
            punct_is(next, '*') || punct_is(next, '{') || word_is(next, &w.type_)
        } else {
            false
        };
        if opens {
            match from_clause_exec(toks, i + 1, w) {
                Some(k) => {
                    return Some((k + 1, toks[k].line));
                },
                None => {
                    return None;
                },
            }
        }
    }
    None
}

fn contains_line(lines: &Vec<usize>, l: usize) -> (r: bool)
    ensures
        r == line_views(lines@).contains(l as nat),
{
    for m in 0..lines.len()
        invariant
            forall|j: int| 0 <= j < m ==> lines@[j] != l,
    {
        if lines[m] == l {
            assert(line_views(lines@)[m as int] == l as nat);
            return true;
        }
    }
    assert forall|j: int| 0 <= j < line_views(lines@).len() implies line_views(lines@)[j] != l as nat by {
        assert(lines@[j] != l);
    }
    false
}

pub(crate) fn contains_text(v: &Vec<String>, s: &Vec<char>) -> (r: bool)
    ensures
        r == string_views(v@).contains(s@),
{
    for m in 0..v.len()
        invariant
            forall|j: int| 0 <= j < m ==> v@[j]@ != s@,
    {
        let c = chars_of(v[m].as_str());
        if c.len() == s.len() && slice_eq(&c, 0, s, 0, s.len()) {
            assert(c@ =~= c@.subrange(0, s.len() as int));
            assert(s@ =~= s@.subrange(0, s.len() as int));
            assert(string_views(v@)[m as int] == s@);
            return true;
        }
    }
    assert forall|j: int| 0 <= j < string_views(v@).len() implies string_views(v@)[j] != s@ by {
        assert(v@[j]@ != s@);
    }
    false
}

/// The specifiers of the constructs among `toks` that no line of `pragmas`
/// suppresses, each once.
pub fn collect_tokens(toks: &Vec<Token>, pragmas: &Vec<usize>) -> (r: Vec<String>)
    ensures
        distinct_set(string_views(r@), collected(token_views(toks@), line_views(pragmas@))),
{
    let ghost t = token_views(toks@);
    let ghost p = line_views(pragmas@);
    let w = Words::new();
    let mut out: Vec<String> = Vec::new();
    for i in 0..toks.len()
        invariant
            t == token_views(toks@),
            p == line_views(pragmas@),
            w.wf(),
            string_views(out@).no_duplicates(),
            forall|s: Seq<char>|
                string_views(out@).contains(s) <==> exists|i2: int| 0 <= i2 < i && #[trigger] found(t, p, i2, s),
    {
        let ghost before = string_views(out@);
        match construct_at_exec(toks, i, &w) {
            Some((k, l)) => {
                if !contains_line(pragmas, l) {
                    if !contains_text(&out, &toks[k].text) {
                        let s = string_of(&toks[k].text);
                        out.push(s);
                        assert(string_views(out@) =~= before.push(toks[k as int].text@));
                        assert(string_views(out@)[before.len() as int] == t[k as int].text);
                    }
                    assert(string_views(out@).contains(t[k as int].text));
                }
            },
            None => {},
        }
        let ghost now = string_views(out@);
        assert(now == before || now == before.push(now.last()));
        assert forall|s: Seq<char>| now.contains(s) <==> exists|i2: int| 0 <= i2 < i + 1 && #[trigger] found(t, p, i2, s) by {
            if now.contains(s) && !before.contains(s) {
                assert(found(t, p, i as int, s));
            }
            if exists|i2: int| 0 <= i2 < i + 1 && #[trigger] found(t, p, i2, s) {
                let i2 = choose|i2: int| 0 <= i2 < i + 1 && #[trigger] found(t, p, i2, s);
                if i2 < i {
                    assert(before.contains(s));
                    let j = choose|j: int| 0 <= j < before.len() && before[j] == s;
                    assert(now[j] == s);
                }
            }
        }
    }
    let ghost v = string_views(out@);
    assert(v.to_set() =~= collected(t, p)) by {
        assert forall|s: Seq<char>| v.to_set().contains(s) <==> collected(t, p).contains(s) by {
            if collected(t, p).contains(s) {
                let i2 = choose|i2: int| 0 <= i2 < t.len() && #[trigger] found(t, p, i2, s);
                assert(v.contains(s));
            }
        }
    }
    out
}

/// Gathers the module specifiers of one source text.
pub struct ImportCollector {
    pub tokens: Vec<Token>,
    pub pragma_lines: Vec<usize>,
    pub imports: Vec<String>,
}

impl ImportCollector {
    /// Tokenizes `code`; nothing is collected yet.
    pub fn new(code: &str) -> (r: ImportCollector)
        ensures
            token_views(r.tokens@) == tokens_of(code@),
            line_views(r.pragma_lines@) == pragma_lines_of(code@),
            r.imports@.len() == 0,
    {
        let src = chars_of(code);
        let (tokens, pragma_lines) = lex_source(&src);
        ImportCollector { tokens, pragma_lines, imports: Vec::new() }
    }

    /// Sets `imports` to the specifiers that the tokens hold, each once.
    pub fn collect(&mut self)
        ensures
            final(self).tokens == old(self).tokens,
            final(self).pragma_lines == old(self).pragma_lines,
            distinct_set(
                string_views(final(self).imports@),
                collected(token_views(old(self).tokens@), line_views(old(self).pragma_lines@)),
            ),
    {
        self.imports = collect_tokens(&self.tokens, &self.pragma_lines);
    }
}

/// The module specifiers that `source` imports, each once.
pub fn collect(source: &str) -> (r: Vec<String>)
    ensures
        distinct_set(string_views(r@), raw_imports(source@)),
{
    let mut c = ImportCollector::new(source);
    c.collect();
    c.imports
}

/// The construct at token `i` names the specifier `s`.
pub open spec fn names_at(t: Seq<TokenView>, i: int, s: Seq<char>) -> bool {
    construct_at(t, i) matches Some((s2, _)) && s2 == s
}

/// The attachment line of the construct at token `i` of the tokens of `src`
/// carries the pragma.
pub open spec fn suppressed_at(src: Seq<char>, i: int) -> bool {
    construct_at(tokens_of(src), i) matches Some((_, l)) && pragma_lines_of(src).contains(l)
}

/// A specifier that only statements on pragma lines name is not collected.
pub proof fn lemma_suppressed_not_collected(src: Seq<char>, s: Seq<char>)
    requires
        forall|i: int| #[trigger] names_at(tokens_of(src), i, s) ==> suppressed_at(src, i),
    ensures
        !raw_imports(src).contains(s),
{
    let t = tokens_of(src);
    let p = pragma_lines_of(src);
    assert forall|i: int| 0 <= i < t.len() implies !#[trigger] found(t, p, i, s) by {
        if found(t, p, i, s) {
            assert(names_at(t, i, s));
            assert(suppressed_at(src, i));
        }
    }
}

} // verus!
