//! The lexer and parser: comment stripping, statement framing, whitespace
//! tokenization, and construction of the line list.
//!
//! A program is a sequence of statements. A statement is optionally prefixed
//! by one or more `label:` tokens, followed by either a mnemonic with its
//! operand tokens or a `.word` directive with one or more literal tokens.

use vstd::prelude::*;
use vstd::string::StrSliceExecFns;
use vstd::string::StringExecFns;

use crate::ast::{ASTInstruction, ASTLabel, ASTWord, AErrV, AsmError, Line, LineList, LineV,
    lines_view};
use crate::strutil::{is_space, is_space_char, split_char, split_char_exec, strs_view, eq_str};

verus! {

/// The part of a line before its comment marker.
pub open spec fn strip_comment(l: Seq<char>) -> Seq<char>
    decreases l.len(),
{
    if l.len() == 0 {
        l
    } else if l[0] == '#' {
        Seq::empty()
    } else {
        seq![l[0]] + strip_comment(l.subrange(1, l.len() as int))
    }
}

/// A line with no content other than blanks.
pub open spec fn is_blank(l: Seq<char>) -> bool {
    forall|i: int| 0 <= i < l.len() ==> is_space_char(#[trigger] l[i])
}

/// Argument separators (commas) replaced by blanks.
pub open spec fn subst_commas(l: Seq<char>) -> Seq<char> {
    l.map_values(|c: char| if c == ',' { ' ' } else { c })
}

/// The contribution of one source line to the preprocessed text: nothing if
/// the line is blank once its comment is stripped, otherwise the stripped
/// line with commas blanked and a statement separator appended.
pub open spec fn pp_line(l: Seq<char>) -> Seq<char> {
    let b = strip_comment(l);
    if is_blank(b) {
        Seq::empty()
    } else {
        subst_commas(b) + seq![';']
    }
}

pub open spec fn pp_lines(ls: Seq<Seq<char>>) -> Seq<char>
    decreases ls.len(),
{
    if ls.len() == 0 {
        Seq::empty()
    } else {
        pp_line(ls[0]) + pp_lines(ls.subrange(1, ls.len() as int))
    }
}

/// The whole preprocessing pass: comments removed, blank lines dropped,
/// commas blanked, statements separated by `;`, and the program framed as
/// one brace-delimited block.
pub open spec fn spec_preprocess(t: Seq<char>) -> Seq<char> {
    seq!['{'] + pp_lines(split_char(t, '\n')) + seq!['}']
}

pub proof fn lemma_strip_comment_len(l: Seq<char>)
    ensures
        strip_comment(l).len() <= l.len(),
    decreases l.len(),
{
    if l.len() > 0 && l[0] != '#' {
        lemma_strip_comment_len(l.subrange(1, l.len() as int));
    }
}

/// The preprocessed body is no longer than the lines it came from plus one
/// separator per line.
pub proof fn lemma_pp_lines_len(ls: Seq<Seq<char>>)
    ensures
        pp_lines(ls).len() <= crate::strutil::seqs_total_len(ls) + ls.len(),
    decreases ls.len(),
{
    if ls.len() > 0 {
        lemma_pp_lines_len(ls.subrange(1, ls.len() as int));
        lemma_strip_comment_len(ls[0]);
    }
}

/// The preprocessed program is at most three characters longer than the
/// source text: the two braces and one final separator.
pub proof fn lemma_preprocess_len(t: Seq<char>)
    ensures
        spec_preprocess(t).len() <= t.len() + 3,
{
    let ls = split_char(t, '\n');
    crate::strutil::lemma_split_char_total(t, '\n');
    lemma_pp_lines_len(ls);
}

/// A parsed line list has no more lines than there were statements.
pub proof fn lemma_parse_stmts_count(stmts: Seq<Seq<char>>)
    ensures
        parse_stmts(stmts) is Ok ==> parse_stmts(stmts)->Ok_0.len() <= stmts.len(),
    decreases stmts.len(),
{
    if stmts.len() > 0 {
        lemma_parse_stmts_count(stmts.subrange(1, stmts.len() as int));
    }
}

fn strip_comment_exec(s: &str) -> (r: String)
    ensures
        r@ == strip_comment(s@),
    decreases s@.len(),
{
    let len = s.unicode_len();
    if len == 0 {
        let r = String::new();
        proof {
            assert(r@ =~= strip_comment(s@));
        }
        r
    } else if s.get_char(0) == '#' {
        let r = String::new();
        proof {
            assert(r@ =~= strip_comment(s@));
        }
        r
    } else {
        let mut head = s.substring_char(0, 1).to_owned();
        let tail = strip_comment_exec(s.substring_char(1, len));
        head.append(tail.as_str());
        proof {
            assert(s@.subrange(0, 1) =~= seq![s@[0]]);
            assert(head@ =~= strip_comment(s@));
        }
        head
    }
}

fn is_blank_exec(s: &str) -> (r: bool)
    ensures
        r == is_blank(s@),
{
    let len = s.unicode_len();
    let mut i: usize = 0;
    while i < len
        invariant
            0 <= i <= len,
            len == s@.len(),
            forall|j: int| 0 <= j < i ==> is_space_char(#[trigger] s@[j]),
        decreases len - i,
    {
        if !is_space(s.get_char(i)) {
            return false;
        }
        i += 1;
    }
    true
}

fn subst_commas_exec(s: &str) -> (r: String)
    ensures
        r@ == subst_commas(s@),
{
    let len = s.unicode_len();
    let mut out = String::new();
    let mut i: usize = 0;
    while i < len
        invariant
            0 <= i <= len,
            len == s@.len(),
            out@ == subst_commas(s@.subrange(0, i as int)),
        decreases len - i,
    {
        let ghost pre = out@;
        if s.get_char(i) == ',' {
            proof {
                reveal_strlit(" ");
            }
            out.append(" ");
        } else {
            out.append(s.substring_char(i, i + 1));
        }
        proof {
            assert(s@.subrange(i as int, i + 1 as int) =~= seq![s@[i as int]]);
            assert(out@ =~= subst_commas(s@.subrange(0, i + 1 as int)));
        }
        i += 1;
    }
    proof {
        assert(s@.subrange(0, len as int) =~= s@);
    }
    out
}

fn pp_lines_exec(lines: &Vec<String>, i: usize) -> (r: String)
    requires
        i <= lines@.len(),
    ensures
        r@ == pp_lines(strs_view(lines@).subrange(i as int, lines@.len() as int)),
    decreases lines@.len() - i,
{
    let ghost sv = strs_view(lines@);
    if i == lines.len() {
        let r = String::new();
        proof {
            assert(r@ =~= pp_lines(sv.subrange(i as int, sv.len() as int)));
        }
        r
    } else {
        let ghost tail = sv.subrange(i as int, sv.len() as int);
        let body = strip_comment_exec(lines[i].as_str());
        let rest = pp_lines_exec(lines, i + 1);
        proof {
            assert(tail[0] == lines@[i as int]@);
            assert(tail.subrange(1, tail.len() as int) =~= sv.subrange(
                i + 1 as int,
                sv.len() as int,
            ));
        }
        if is_blank_exec(body.as_str()) {
            rest
        } else {
            let mut out = subst_commas_exec(body.as_str());
            proof {
                reveal_strlit(";");
            }
            out.append(";");
            out.append(rest.as_str());
            proof {
                assert(out@ =~= pp_lines(tail));
            }
            out
        }
    }
}

/// Removes everything from a comment marker to end of line, drops blank
/// lines, joins the rest with `;`, blanks commas, and frames the program as
/// the single block the parser expects.
pub fn pre_process(program_text: &str) -> (r: String)
    ensures
        r@ == spec_preprocess(program_text@),
{
    let lines = split_char_exec(program_text, '\n');
    proof {
        reveal_strlit("{");
        reveal_strlit("}");
    }
    let mut out = "{".to_owned();
    let body = pp_lines_exec(&lines, 0);
    out.append(body.as_str());
    out.append("}");
    proof {
        assert(strs_view(lines@).subrange(0, lines@.len() as int) =~= strs_view(lines@));
        assert(out@ =~= spec_preprocess(program_text@));
    }
    out
}

/// Index of the first blank in `s`, or `s.len()` if there is none.
pub open spec fn idx_of_space(s: Seq<char>) -> int
    decreases s.len(),
{
    if s.len() == 0 {
        0
    } else if is_space_char(s[0]) {
        0
    } else {
        1 + idx_of_space(s.subrange(1, s.len() as int))
    }
}

/// The whitespace-separated tokens of a statement, in order, blanks dropped.
pub open spec fn tokenize(s: Seq<char>) -> Seq<Seq<char>>
    decreases s.len(),
{
    if s.len() == 0 {
        Seq::empty()
    } else {
        let rest = tokenize(s.subrange(1, s.len() as int));
        if is_space_char(s[0]) {
            rest
        } else if s.len() == 1 || is_space_char(s[1]) {
            seq![seq![s[0]]] + rest
        } else if rest.len() == 0 {
            seq![seq![s[0]]]
        } else {
            seq![seq![s[0]] + rest[0]] + rest.subrange(1, rest.len() as int)
        }
    }
}

pub fn tokenize_exec(s: &str) -> (r: Vec<String>)
    ensures
        strs_view(r@) == tokenize(s@),
    decreases s@.len(),
{
    let len = s.unicode_len();
    if len == 0 {
        let v: Vec<String> = Vec::new();
        proof {
            assert(strs_view(v@) =~= tokenize(s@));
        }
        v
    } else {
        let c0 = s.get_char(0);
        let mut rest = tokenize_exec(s.substring_char(1, len));
        proof {
            assert(strs_view(rest@).len() == rest@.len());
        }
        if is_space(c0) {
            rest
        } else if len == 1 || is_space(s.get_char(1)) {
            let tok = s.substring_char(0, 1).to_owned();
            rest.insert(0, tok);
            proof {
                assert(s@.subrange(0, 1) =~= seq![s@[0]]);
                assert(strs_view(rest@) =~= tokenize(s@));
            }
            rest
        } else if rest.len() == 0 {
            let tok = s.substring_char(0, 1).to_owned();
            let mut v: Vec<String> = Vec::new();
            v.push(tok);
            proof {
                assert(s@.subrange(0, 1) =~= seq![s@[0]]);
                assert(strs_view(v@) =~= tokenize(s@));
            }
            v
        } else {
            let head = rest.remove(0);
            let mut tok = s.substring_char(0, 1).to_owned();
            tok.append(head.as_str());
            rest.insert(0, tok);
            proof {
                assert(s@.subrange(0, 1) =~= seq![s@[0]]);
                assert(strs_view(rest@) =~= tokenize(s@));
            }
            rest
        }
    }
}

/// No brace occurs strictly inside the block.
pub open spec fn no_braces(s: Seq<char>) -> bool {
    forall|i: int| 0 <= i < s.len() ==> #[trigger] s[i] != '{' && s[i] != '}'
}

/// One statement's tokens parsed into a line: leading `label:` tokens wrap
/// the rest; a leading `.word` makes a word directive; anything else is an
/// instruction whose first token is its mnemonic.
pub open spec fn parse_stmt(toks: Seq<Seq<char>>) -> Result<LineV, AErrV>
    decreases toks.len(),
{
    if toks.len() == 0 {
        Err(AErrV::EmptyStatement)
    } else {
        let t0 = toks[0];
        if t0.len() >= 1 && t0.last() == ':' {
            match parse_stmt(toks.subrange(1, toks.len() as int)) {
                Ok(inner) => Ok(
                    LineV::Label { name: t0.drop_last(), inner: Box::new(inner) },
                ),
                Err(e) => Err(e),
            }
        } else if t0[0] == '.' {
            if t0 == ".word"@ {
                if toks.len() >= 2 {
                    Ok(LineV::Word { tokens: toks.subrange(1, toks.len() as int) })
                } else {
                    Err(AErrV::EmptyStatement)
                }
            } else {
                Err(AErrV::UnknownDirective { token: t0 })
            }
        } else {
            Ok(LineV::Instruction { tokens: toks })
        }
    }
}

/// The statements of the block parsed in order; segments with no tokens are
/// skipped, and the first error wins.
pub open spec fn parse_stmts(stmts: Seq<Seq<char>>) -> Result<Seq<LineV>, AErrV>
    decreases stmts.len(),
{
    if stmts.len() == 0 {
        Ok(Seq::empty())
    } else {
        let toks = tokenize(stmts[0]);
        if toks.len() == 0 {
            parse_stmts(stmts.subrange(1, stmts.len() as int))
        } else {
            match parse_stmt(toks) {
                Err(e) => Err(e),
                Ok(l) => match parse_stmts(stmts.subrange(1, stmts.len() as int)) {
                    Ok(ls) => Ok(seq![l] + ls),
                    Err(e) => Err(e),
                },
            }
        }
    }
}

/// The grammar applied to a preprocessed program: one brace-delimited block
/// of `;`-separated statements.
pub open spec fn spec_parse(p: Seq<char>) -> Result<Seq<LineV>, AErrV> {
    if p.len() >= 2 && p[0] == '{' && p[p.len() - 1] == '}' && no_braces(
        p.subrange(1, p.len() - 1),
    ) {
        parse_stmts(split_char(p.subrange(1, p.len() - 1), ';'))
    } else {
        Err(AErrV::UnbalancedDelimiters)
    }
}

/// Every token the tokenizer yields has at least one character.
pub proof fn lemma_tokenize_nonempty(s: Seq<char>)
    ensures
        forall|j: int|
            0 <= j < tokenize(s).len() ==> #[trigger] tokenize(s)[j].len() > 0,
    decreases s.len(),
{
    if s.len() > 0 {
        let sub = s.subrange(1, s.len() as int);
        lemma_tokenize_nonempty(sub);
        let rest = tokenize(sub);
        if is_space_char(s[0]) {
        } else if s.len() == 1 || is_space_char(s[1]) {
            assert forall|j: int| 0 <= j < tokenize(s).len() implies tokenize(s)[j].len() > 0 by {
                if j >= 1 {
                    assert(tokenize(s)[j] == rest[j - 1]);
                }
            }
        } else if rest.len() == 0 {
        } else {
            assert forall|j: int| 0 <= j < tokenize(s).len() implies tokenize(s)[j].len() > 0 by {
                if j >= 1 {
                    assert(tokenize(s)[j] == rest.subrange(1, rest.len() as int)[j - 1]);
                    assert(rest.subrange(1, rest.len() as int)[j - 1] == rest[j]);
                }
            }
        }
    }
}

fn parse_stmt_exec(toks: Vec<String>) -> (r: Result<Line, AsmError>)
    requires
        forall|j: int| 0 <= j < toks@.len() ==> #[trigger] toks@[j]@.len() > 0,
    ensures
        match r {
            Ok(line) => parse_stmt(strs_view(toks@)) == Ok::<LineV, AErrV>(line@),
            Err(e) => parse_stmt(strs_view(toks@)) == Err::<LineV, AErrV>(e@),
        },
    decreases toks@.len(),
{
    let ghost tv = strs_view(toks@);
    proof {
        assert(tv.len() == toks@.len());
    }
    if toks.len() == 0 {
        return Err(AsmError::EmptyStatement);
    }
    let mut toks = toks;
    let t0len = toks[0].as_str().unicode_len();
    if t0len >= 1 && toks[0].as_str().get_char(t0len - 1) == ':' {
        let t0 = toks.remove(0);
        let name = t0.as_str().substring_char(0, t0len - 1).to_owned();
        proof {
            assert(strs_view(toks@) =~= tv.subrange(1, tv.len() as int));
            assert(name@ =~= tv[0].drop_last());
            assert(forall|j: int|
                0 <= j < toks@.len() ==> #[trigger] toks@[j]@ == strs_view(toks@)[j]);
        }
        match parse_stmt_exec(toks) {
            Ok(inner) => Ok(
                Line::ASTLabel(Box::new(ASTLabel::new(name, Box::new(inner)))),
            ),
            Err(e) => Err(e),
        }
    } else if toks[0].as_str().get_char(0) == '.' {
        proof {
            assert(t0len >= 1);
        }
        let t0 = toks.remove(0);
        proof {
            assert(strs_view(toks@) =~= tv.subrange(1, tv.len() as int));
        }
        if eq_str(t0.as_str(), ".word") {
            if toks.len() >= 1 {
                Ok(Line::ASTWord(Box::new(ASTWord::new(toks))))
            } else {
                Err(AsmError::EmptyStatement)
            }
        } else {
            Err(AsmError::UnknownDirective { token: t0 })
        }
    } else {
        Ok(Line::ASTInstruction(Box::new(ASTInstruction::new(toks))))
    }
}

fn parse_stmts_exec(stmts: &Vec<String>, i: usize) -> (r: Result<Vec<Box<Line>>, AsmError>)
    requires
        i <= stmts@.len(),
    ensures
        match r {
            Ok(v) => parse_stmts(strs_view(stmts@).subrange(i as int, stmts@.len() as int))
                == Ok::<Seq<LineV>, AErrV>(lines_view(v@)),
            Err(e) => parse_stmts(strs_view(stmts@).subrange(i as int, stmts@.len() as int))
                == Err::<Seq<LineV>, AErrV>(e@),
        },
    decreases stmts@.len() - i,
{
    let ghost sv = strs_view(stmts@);
    let ghost tail = sv.subrange(i as int, sv.len() as int);
    if i == stmts.len() {
        let v: Vec<Box<Line>> = Vec::new();
        proof {
            assert(lines_view(v@) =~= Seq::<LineV>::empty());
        }
        return Ok(v);
    }
    proof {
        assert(tail[0] == stmts@[i as int]@);
        assert(tail.subrange(1, tail.len() as int) =~= sv.subrange(i + 1 as int, sv.len() as int));
    }
    let toks = tokenize_exec(stmts[i].as_str());
    proof {
        lemma_tokenize_nonempty(stmts@[i as int]@);
        assert(forall|j: int|
            0 <= j < toks@.len() ==> #[trigger] toks@[j]@ == strs_view(toks@)[j]);
    }
    if toks.len() == 0 {
        proof {
            assert(tokenize(tail[0]).len() == 0) by {
                assert(strs_view(toks@).len() == toks@.len());
            }
        }
        parse_stmts_exec(stmts, i + 1)
    } else {
        proof {
            assert(tokenize(tail[0]).len() > 0) by {
                assert(strs_view(toks@).len() == toks@.len());
            }
        }
        match parse_stmt_exec(toks) {
            Err(e) => Err(e),
            Ok(line) => match parse_stmts_exec(stmts, i + 1) {
                Err(e) => Err(e),
                Ok(mut v) => {
                    let ghost prev = v@;
                    v.insert(0, Box::new(line));
                    proof {
                        assert(lines_view(v@) =~= seq![line@] + lines_view(prev));
                    }
                    Ok(v)
                },
            },
        }
    }
}

/// Parses a preprocessed program into its line list.
pub fn parse_program(p: &str) -> (r: Result<LineList, AsmError>)
    ensures
        match r {
            Ok(ll) => spec_parse(p@) == Ok::<Seq<LineV>, AErrV>(ll@),
            Err(e) => spec_parse(p@) == Err::<Seq<LineV>, AErrV>(e@),
        },
{
    let len = p.unicode_len();
    if len < 2 || p.get_char(0) != '{' || p.get_char(len - 1) != '}' {
        return Err(AsmError::UnbalancedDelimiters);
    }
    let interior = p.substring_char(1, len - 1);
    let mut i: usize = 0;
    while i < len - 2
        invariant
            0 <= i <= len - 2,
            len == p@.len(),
            interior@ == p@.subrange(1, p@.len() - 1),
            forall|j: int| 0 <= j < i ==> #[trigger] interior@[j] != '{' && interior@[j] != '}',
        decreases len - 2 - i,
    {
        let c = interior.get_char(i);
        if c == '{' || c == '}' {
            return Err(AsmError::UnbalancedDelimiters);
        }
        i += 1;
    }
    proof {
        assert(no_braces(p@.subrange(1, p@.len() - 1)));
    }
    let stmts = split_char_exec(interior, ';');
    proof {
        assert(strs_view(stmts@).subrange(0, stmts@.len() as int) =~= strs_view(stmts@));
    }
    match parse_stmts_exec(&stmts, 0) {
        Ok(v) => Ok(LineList::new(v)),
        Err(e) => Err(e),
    }
}

} // verus!
