//! The template lexer and expander.
//!
//! A template is a string of literal text, spaces, and `${name}` variable
//! references. The lexer turns it into a token stream; the expander walks
//! the tokens against a URL, substituting URL components for variables, and
//! yields the whitespace-delimited fields of a command line.

use vstd::prelude::*;

use crate::urls::{Url, UrlView};
use crate::Error;

verus! {

/// One token of a template string.
#[derive(Debug, PartialEq)]
pub enum LexItem {
    Word(String),
    Space,
    StartVariable,
    EndVariable,
}

/// The mathematical value of a [`LexItem`].
pub enum LexItemView {
    Word(Seq<char>),
    Space,
    StartVariable,
    EndVariable,
}

impl DeepView for LexItem {
    type V = LexItemView;

    open spec fn deep_view(&self) -> LexItemView {
        match self {
            LexItem::Word(w) => LexItemView::Word(w@),
            LexItem::Space => LexItemView::Space,
            LexItem::StartVariable => LexItemView::StartVariable,
            LexItem::EndVariable => LexItemView::EndVariable,
        }
    }
}

/// The index right after the run of word characters that begins at `i`.
///
/// A word run stops before a space, before a `$` outside a variable, and at
/// a `}` inside a variable.
pub open spec fn word_end(s: Seq<char>, i: int, in_variable: bool) -> int
    decreases s.len() - i,
{
    if i < 0 || i >= s.len() {
        i
    } else if s[i] == ' ' || (!in_variable && s[i] == '$') || (in_variable && s[i] == '}') {
        i
    } else {
        word_end(s, i + 1, in_variable)
    }
}

pub proof fn lemma_word_end_bounds(s: Seq<char>, i: int, in_variable: bool)
    requires
        0 <= i <= s.len(),
    ensures
        i <= word_end(s, i, in_variable) <= s.len(),
    decreases s.len() - i,
{
    if i < s.len() && !(s[i] == ' ' || (!in_variable && s[i] == '$') || (in_variable && s[i]
        == '}')) {
        lemma_word_end_bounds(s, i + 1, in_variable);
    }
}

/// Whether the word that begins at `i` ends at a `}` that closes the
/// variable. That `}` is consumed silently: it is part of no token, and
/// scanning continues outside the variable.
pub open spec fn word_closes_variable(s: Seq<char>, i: int, in_variable: bool) -> bool {
    let e = word_end(s, i + 1, in_variable);
    in_variable && e < s.len() && s[e] == '}'
}

/// The tokens of `s` from index `i` on, scanning in variable mode when
/// `in_variable` holds.
///
/// `${` outside a variable yields `StartVariable` and enters variable mode;
/// a space yields `Space`; `}` inside a variable yields `EndVariable` and
/// leaves variable mode; any other character begins a word.
pub open spec fn lex_from(s: Seq<char>, i: int, in_variable: bool) -> Seq<LexItemView>
    decreases s.len() - i,
    via lex_from_decreases
{
    if i < 0 || i >= s.len() {
        Seq::empty()
    } else if !in_variable && s[i] == '$' && i + 1 < s.len() && s[i + 1] == '{' {
        seq![LexItemView::StartVariable] + lex_from(s, i + 2, true)
    } else if s[i] == ' ' {
        seq![LexItemView::Space] + lex_from(s, i + 1, in_variable)
    } else if in_variable && s[i] == '}' {
        seq![LexItemView::EndVariable] + lex_from(s, i + 1, false)
    } else {
        let e = word_end(s, i + 1, in_variable);
        let closed = word_closes_variable(s, i, in_variable);
        let next = if closed {
            e + 1
        } else {
            e
        };
        seq![LexItemView::Word(s.subrange(i, e))] + lex_from(s, next, in_variable && !closed)
    }
}

#[via_fn]
proof fn lex_from_decreases(s: Seq<char>, i: int, in_variable: bool) {
    if 0 <= i < s.len() {
        lemma_word_end_bounds(s, i + 1, in_variable);
    }
}

/// The token sequence of the template `s`.
pub open spec fn lex_spec(s: Seq<char>) -> Seq<LexItemView> {
    lex_from(s, 0, false)
}

/// Collect the word that begins at index `start` of `s`.
///
/// Returns the word, the index scanning continues at, and whether the word
/// was terminated by a `}` that closed a variable.
pub fn get_word(s: &str, start: usize, in_variable: bool) -> (r: (String, usize, bool))
    requires
        start < s@.len(),
    ensures
        ({
            let e = word_end(s@, start + 1, in_variable);
            let closed = word_closes_variable(s@, start as int, in_variable);
            &&& r.0@ == s@.subrange(start as int, e)
            &&& r.1 as int == if closed {
                e + 1
            } else {
                e
            }
            &&& r.2 == closed
        }),
{
    let n = s.unicode_len();
    let mut j: usize = start + 1;
    loop
        invariant
            start + 1 <= j <= n,
            n == s@.len(),
            start < n,
            word_end(s@, start + 1, in_variable) == word_end(s@, j as int, in_variable),
        ensures
            start + 1 <= j <= n,
            n == s@.len(),
            word_end(s@, start + 1, in_variable) == j as int,
        decreases n - j,
    {
        if j >= n {
            break ;
        }
        let c = s.get_char(j);
        if c == ' ' {
            break ;
        }
        if !in_variable && c == '$' {
            break ;
        }
        if in_variable && c == '}' {
            break ;
        }
        j = j + 1;
    }
    let closed = in_variable && j < n && s.get_char(j) == '}';
    let word = String::from_str(s.substring_char(start, j));
    let next = if closed {
        j + 1
    } else {
        j
    };
    (word, next, closed)
}

proof fn lemma_tokens_step(
    prev: Seq<LexItemView>,
    tok: LexItemView,
    rest: Seq<LexItemView>,
    whole: Seq<LexItemView>,
)
    requires
        prev + (seq![tok] + rest) == whole,
    ensures
        prev.push(tok) + rest == whole,
{
    assert(prev.push(tok) + rest =~= prev + (seq![tok] + rest));
}

/// Tokenize a template string.
///
/// Lexing never fails: every character lands in some token, and whether a
/// variable name is known is a concern of expansion, not of lexing.
pub fn lexer(command: &str) -> (r: Vec<LexItem>)
    ensures
        r.deep_view() == lex_spec(command@),
{
    let n = command.unicode_len();
    let mut result: Vec<LexItem> = Vec::new();
    let mut i: usize = 0;
    let mut in_variable = false;
    while i < n
        invariant
            i <= n,
            n == command@.len(),
            result.deep_view() + lex_from(command@, i as int, in_variable) == lex_spec(command@),
        decreases n - i,
    {
        let ghost prev = result.deep_view();
        let ghost i0 = i as int;
        let ghost v0 = in_variable;
        let c = command.get_char(i);
        if !in_variable && c == '$' && i + 1 < n && command.get_char(i + 1) == '{' {
            result.push(LexItem::StartVariable);
            i = i + 2;
            in_variable = true;
            proof {
                assert(result.deep_view() =~= prev.push(LexItemView::StartVariable));
                lemma_tokens_step(
                    prev,
                    LexItemView::StartVariable,
                    lex_from(command@, i as int, in_variable),
                    lex_spec(command@),
                );
            }
        } else if c == ' ' {
            result.push(LexItem::Space);
            i = i + 1;
            proof {
                assert(result.deep_view() =~= prev.push(LexItemView::Space));
                lemma_tokens_step(
                    prev,
                    LexItemView::Space,
                    lex_from(command@, i as int, in_variable),
                    lex_spec(command@),
                );
            }
        } else if in_variable && c == '}' {
            result.push(LexItem::EndVariable);
            i = i + 1;
            in_variable = false;
            proof {
                assert(result.deep_view() =~= prev.push(LexItemView::EndVariable));
                lemma_tokens_step(
                    prev,
                    LexItemView::EndVariable,
                    lex_from(command@, i as int, in_variable),
                    lex_spec(command@),
                );
            }
        } else {
            let (word, next, closed) = get_word(command, i, in_variable);
            proof {
                lemma_word_end_bounds(command@, i0 + 1, v0);
            }
            result.push(LexItem::Word(word));
            i = next;
            in_variable = in_variable && !closed;
            proof {
                let e = word_end(command@, i0 + 1, v0);
                assert(result.deep_view() =~= prev.push(
                    LexItemView::Word(command@.subrange(i0, e)),
                ));
                lemma_tokens_step(
                    prev,
                    LexItemView::Word(command@.subrange(i0, e)),
                    lex_from(command@, i as int, in_variable),
                    lex_spec(command@),
                );
            }
        }
    }
    proof {
        assert(result.deep_view() + lex_from(command@, i as int, in_variable) =~= result.deep_view());
    }
    result
}

/// The value of the template variable `key` on `url`, if `key` is a known
/// variable name and the component it names is present.
pub open spec fn var_value(url: UrlView, key: Seq<char>) -> Option<Seq<char>> {
    if key == "url"@ {
        Some(url.full)
    } else if key == "scheme"@ {
        Some(url.scheme)
    } else if key == "host"@ {
        url.host
    } else if key == "path"@ {
        Some(url.path)
    } else if key == "query"@ {
        url.query
    } else if key == "fragment"@ {
        url.fragment
    } else {
        None
    }
}

/// Character-for-character string equality.
fn str_eq(a: &str, b: &str) -> (r: bool)
    ensures
        r == (a@ == b@),
{
    let sa = String::from_str(a);
    let sb = String::from_str(b);
    sa == sb
}

/// Look `key` up in the fixed variable table of URL components.
fn get_variable(url: &Url, key: &str) -> (r: Option<String>)
    ensures
        match r {
            Some(v) => var_value(url@, key@) == Some(v@),
            None => var_value(url@, key@) is None,
        },
{
    if str_eq(key, "url") {
        Some(url.full.clone())
    } else if str_eq(key, "scheme") {
        Some(url.scheme.clone())
    } else if str_eq(key, "host") {
        match &url.host {
            Some(h) => Some(h.clone()),
            None => None,
        }
    } else if str_eq(key, "path") {
        Some(url.path.clone())
    } else if str_eq(key, "query") {
        match &url.query {
            Some(q) => Some(q.clone()),
            None => None,
        }
    } else if str_eq(key, "fragment") {
        match &url.fragment {
            Some(f) => Some(f.clone()),
            None => None,
        }
    } else {
        None
    }
}

/// The fields that expanding `tokens` from index `t` on yields, given the
/// field `current` accumulated so far and the fields `acc` already flushed.
///
/// A word is appended to the current field; a space flushes it; a
/// `StartVariable` must be followed by a word naming a resolvable variable,
/// whose value is appended; an `EndVariable` is structural only. At the end
/// of the tokens the current field is flushed, even if empty. `None` marks a
/// template authoring defect: a `StartVariable` not followed by a word, an
/// unknown variable name, or a reference to an absent URL component.
pub open spec fn expand_from(
    tokens: Seq<LexItemView>,
    url: UrlView,
    t: int,
    current: Seq<char>,
    acc: Seq<Seq<char>>,
) -> Option<Seq<Seq<char>>>
    decreases tokens.len() - t,
{
    if t < 0 {
        None
    } else if t >= tokens.len() {
        Some(acc.push(current))
    } else {
        match tokens[t] {
            LexItemView::Word(w) => expand_from(tokens, url, t + 1, current + w, acc),
            LexItemView::Space => expand_from(tokens, url, t + 1, Seq::empty(), acc.push(current)),
            LexItemView::EndVariable => expand_from(tokens, url, t + 1, current, acc),
            LexItemView::StartVariable => if t + 1 < tokens.len() {
                match tokens[t + 1] {
                    LexItemView::Word(name) => match var_value(url, name) {
                        Some(v) => expand_from(tokens, url, t + 2, current + v, acc),
                        None => None,
                    },
                    _ => None,
                }
            } else {
                None
            },
        }
    }
}

/// Whether any token of `tokens` starts a variable.
pub open spec fn has_variable(tokens: Seq<LexItemView>) -> bool {
    exists|k: int| 0 <= k < tokens.len() && tokens[k] is StartVariable
}

/// The fields that expanding `template` against `url` yields, or `None` on
/// a template authoring defect.
///
/// When the template references no variable at all, the canonical URL
/// string is appended as one additional trailing field, so that a command
/// without placeholders still receives the URL as its final argument.
pub open spec fn format_spec(url: UrlView, template: Seq<char>) -> Option<Seq<Seq<char>>> {
    let tokens = lex_spec(template);
    match expand_from(tokens, url, 0, Seq::empty(), Seq::empty()) {
        Some(fields) => Some(
            if has_variable(tokens) {
                fields
            } else {
                fields.push(url.full)
            },
        ),
        None => None,
    }
}

/// Expand the template `command` against `url` into the fields of a command
/// line: field 0 is the program, the rest are its arguments.
///
/// Fails with [`Error::BadTemplate`] exactly when the template holds a
/// malformed variable reference: a `${` not followed by a word, an unknown
/// variable name, or a reference to a component the URL does not have.
pub fn format_command(url: &Url, command: &str) -> (r: Result<Vec<String>, Error>)
    ensures
        match r {
            Ok(fields) => format_spec(url@, command@) == Some(fields.deep_view()),
            Err(e) => {
                &&& format_spec(url@, command@) is None
                &&& e == Error::BadTemplate
            },
        },
{
    let tokens = lexer(command);
    let ghost dv = tokens.deep_view();
    let mut contains_variable = false;
    let mut k: usize = 0;
    while k < tokens.len()
        invariant
            k <= tokens.len(),
            dv == tokens.deep_view(),
            contains_variable ==> has_variable(dv),
            !contains_variable ==> forall|j: int|
                0 <= j < k ==> !(dv[j] is StartVariable),
        decreases tokens.len() - k,
    {
        match &tokens[k] {
            LexItem::StartVariable => {
                proof {
                    assert(0 <= k < dv.len() && dv[k as int] is StartVariable);
                }
                contains_variable = true;
            },
            _ => {},
        }
        k = k + 1;
    }
    let mut result: Vec<String> = Vec::new();
    let mut current = String::new();
    let mut t: usize = 0;
    proof {
        assert(result.deep_view() =~= Seq::<Seq<char>>::empty());
    }
    while t < tokens.len()
        invariant
            t <= tokens.len(),
            dv == tokens.deep_view(),
            contains_variable == has_variable(dv),
            dv == lex_spec(command@),
            expand_from(dv, url@, t as int, current@, result.deep_view()) == expand_from(
                dv,
                url@,
                0,
                Seq::empty(),
                Seq::empty(),
            ),
        decreases tokens.len() - t,
    {
        let ghost cur0 = current@;
        let ghost res0 = result.deep_view();
        match &tokens[t] {
            LexItem::Word(w) => {
                current.append(w.as_str());
                t = t + 1;
            },
            LexItem::Space => {
                result.push(current);
                current = String::new();
                t = t + 1;
                proof {
                    assert(result.deep_view() =~= res0.push(cur0));
                }
            },
            LexItem::StartVariable => {
                if t + 1 < tokens.len() {
                    match &tokens[t + 1] {
                        LexItem::Word(name) => {
                            match get_variable(url, name.as_str()) {
                                Some(value) => {
                                    current.append(value.as_str());
                                    t = t + 2;
                                },
                                None => {
                                    return Err(Error::BadTemplate);
                                },
                            }
                        },
                        _ => {
                            return Err(Error::BadTemplate);
                        },
                    }
                } else {
                    return Err(Error::BadTemplate);
                }
            },
            LexItem::EndVariable => {
                t = t + 1;
            },
        }
    }
    let ghost flushed = result.deep_view().push(current@);
    result.push(current);
    proof {
        assert(result.deep_view() =~= flushed);
    }
    if !contains_variable {
        let ghost before = result.deep_view();
        result.push(url.full.clone());
        proof {
            assert(result.deep_view() =~= before.push(url@.full));
        }
    }
    Ok(result)
}

proof fn lemma_expand_no_variable(
    tokens: Seq<LexItemView>,
    url: UrlView,
    t: int,
    current: Seq<char>,
    acc: Seq<Seq<char>>,
)
    requires
        0 <= t <= tokens.len(),
        forall|k: int| t <= k < tokens.len() ==> !(#[trigger] tokens[k] is StartVariable),
    ensures
        expand_from(tokens, url, t, current, acc) is Some,
        expand_from(tokens, url, t, current, acc)->Some_0.len() > acc.len(),
    decreases tokens.len() - t,
{
    if t < tokens.len() {
        match tokens[t] {
            LexItemView::Word(w) => lemma_expand_no_variable(tokens, url, t + 1, current + w, acc),
            LexItemView::Space => lemma_expand_no_variable(
                tokens,
                url,
                t + 1,
                Seq::empty(),
                acc.push(current),
            ),
            LexItemView::EndVariable => lemma_expand_no_variable(tokens, url, t + 1, current, acc),
            LexItemView::StartVariable => assert(false),
        }
    }
}

/// A template that references no variable always expands, and the canonical
/// URL string is appended as its final field: a command with no
/// placeholders still receives the URL as its last argument.
pub proof fn lemma_no_variable_appends_url(url: UrlView, template: Seq<char>)
    requires
        !has_variable(lex_spec(template)),
    ensures
        format_spec(url, template) is Some,
        format_spec(url, template)->Some_0.len() >= 2,
        format_spec(url, template)->Some_0.last() == url.full,
{
    assert(forall|k: int|
        0 <= k < lex_spec(template).len() ==> !(#[trigger] lex_spec(template)[k]
            is StartVariable));
    lemma_expand_no_variable(lex_spec(template), url, 0, Seq::empty(), Seq::empty());
}

/// Expansion has no hidden state: the fields are a function of the URL's
/// components and the template text alone, so expanding one (URL, template)
/// pair twice yields identical argument vectors.
pub proof fn lemma_expansion_deterministic(
    url_a: UrlView,
    url_b: UrlView,
    template_a: Seq<char>,
    template_b: Seq<char>,
)
    requires
        url_a == url_b,
        template_a == template_b,
    ensures
        format_spec(url_a, template_a) == format_spec(url_b, template_b),
{
}

/// Render the template `command` against `url` as one string: the expanded
/// fields concatenated with no separator. This is how a redirect template
/// becomes the rewritten URL string.
pub fn format_to_string(url: &Url, command: &str) -> (r: Result<String, Error>)
    ensures
        match r {
            Ok(s) => {
                &&& format_spec(url@, command@) is Some
                &&& s@ == format_spec(url@, command@)->Some_0.flatten()
            },
            Err(e) => {
                &&& format_spec(url@, command@) is None
                &&& e == Error::BadTemplate
            },
        },
{
    match format_command(url, command) {
        Ok(fields) => {
            let ghost fv = fields.deep_view();
            let mut out = String::new();
            let mut k: usize = 0;
            proof {
                assert(fv.take(0) =~= Seq::<Seq<char>>::empty());
                assert(Seq::<Seq<char>>::empty().flatten() =~= Seq::<char>::empty());
            }
            while k < fields.len()
                invariant
                    k <= fields.len(),
                    fv == fields.deep_view(),
                    out@ == fv.take(k as int).flatten(),
                decreases fields.len() - k,
            {
                out.append(fields[k].as_str());
                k = k + 1;
                proof {
                    assert(fv.take(k as int) =~= fv.take(k as int - 1).push(fv[k as int - 1]));
                    fv.take(k as int - 1).lemma_flatten_push(fv[k as int - 1]);
                }
            }
            proof {
                assert(fv.take(fv.len() as int) =~= fv);
            }
            Ok(out)
        },
        Err(e) => Err(e),
    }
}

} // verus!
