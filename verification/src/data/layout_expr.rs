//! The layout expression language.
//!
//! An expression is a name, or `ROW` or `COL` (in either case) directly
//! followed by a parenthesised list of children separated by commas. A child
//! is an expression, optionally followed by white space and a share written
//! as a decimal number and `%`. White space around children is ignored. A
//! name is any run of characters other than white space, commas and
//! parentheses.

use vstd::prelude::*;
use crate::text::{
    all_digits, chars_of, copy_range, decimal, digits_to_number, digits_value, is_digit,
    is_digit_char, is_space, is_space_char, lemma_decimal, push_decimal, push_str, skip_spaces,
    skip_spaces_from, string_of,
};
use crate::types::session::{
    lemma_children_view, slots_of, LayoutEntry, LayoutNode, LayoutSlot, LayoutTree,
};

verus! {

/// Why a text is no layout expression.
#[derive(Clone, Copy, Debug, PartialEq, Eq, Structural)]
pub enum ParseErrorKind {
    /// A parenthesis is not closed, or is closed or opened where none can be.
    UnbalancedParens,
    /// A name is missing where a child or an expression must begin.
    MissingIdentifier,
    /// What follows a child is no decimal number with `%`, or too large.
    InvalidPercent,
    /// Something follows a complete expression or a child with its share.
    TrailingInput,
}

/// A failed parse as a value of the model: the kind, the position (counted in
/// characters) and the offending token.
pub struct ParseFailure {
    pub kind: ParseErrorKind,
    pub position: nat,
    pub token: Seq<char>,
}

/// A failed parse: what is wrong, where, and the token found there.
#[derive(Debug)]
pub struct ParseError {
    pub kind: ParseErrorKind,
    pub position: usize,
    pub token: String,
}

impl View for ParseError {
    type V = ParseFailure;

    open spec fn view(&self) -> ParseFailure {
        ParseFailure { kind: self.kind, position: self.position as nat, token: self.token@ }
    }
}

impl Clone for ParseError {
    fn clone(&self) -> (copy: Self)
        ensures
            copy@ == self@,
    {
        ParseError { kind: self.kind, position: self.position, token: self.token.clone() }
    }
}

/// The words that name a kind of failure.
pub open spec fn kind_text(kind: ParseErrorKind) -> Seq<char> {
    match kind {
        ParseErrorKind::UnbalancedParens => "unbalanced parentheses"@,
        ParseErrorKind::MissingIdentifier => "missing identifier"@,
        ParseErrorKind::InvalidPercent => "invalid percent"@,
        ParseErrorKind::TrailingInput => "unexpected input"@,
    }
}

/// The message for a failure: its kind, its position and its token.
pub open spec fn message_of(failure: ParseFailure) -> Seq<char> {
    kind_text(failure.kind) + " at position "@ + decimal(failure.position) + ": '"@ + failure.token
        + "'"@
}

impl ParseError {
    /// A description of the failure for a human reader.
    pub fn message(&self) -> (text: String)
        ensures
            text@ == message_of(self@),
    {
        let mut out: Vec<char> = Vec::new();
        match self.kind {
            ParseErrorKind::UnbalancedParens => push_str(&mut out, "unbalanced parentheses"),
            ParseErrorKind::MissingIdentifier => push_str(&mut out, "missing identifier"),
            ParseErrorKind::InvalidPercent => push_str(&mut out, "invalid percent"),
            ParseErrorKind::TrailingInput => push_str(&mut out, "unexpected input"),
        }
        push_str(&mut out, " at position ");
        push_decimal(&mut out, self.position as u64);
        push_str(&mut out, ": '");
        push_str(&mut out, self.token.as_str());
        push_str(&mut out, "'");
        string_of(out.as_slice())
    }
}

/// Whether `c` can stand in a name.
pub open spec fn is_name_char(c: char) -> bool {
    !is_space(c) && c != ',' && c != '(' && c != ')'
}

/// The end of the run of name characters that begins at `pos`.
pub open spec fn name_end(s: Seq<char>, pos: int) -> int
    decreases s.len() - pos,
{
    if 0 <= pos < s.len() && is_name_char(s[pos]) {
        name_end(s, pos + 1)
    } else {
        pos
    }
}

/// The end of the run of decimal digits that begins at `pos`.
pub open spec fn digits_end(s: Seq<char>, pos: int) -> int
    decreases s.len() - pos,
{
    if 0 <= pos < s.len() && is_digit(s[pos]) {
        digits_end(s, pos + 1)
    } else {
        pos
    }
}

/// The token at `pos`: the run of name characters that begins there, or the
/// single character there where it is none, or nothing at the end.
pub open spec fn token_at(s: Seq<char>, pos: int) -> Seq<char> {
    if pos < 0 || pos >= s.len() {
        Seq::empty()
    } else if is_name_char(s[pos]) {
        s.subrange(pos, name_end(s, pos))
    } else {
        seq![s[pos]]
    }
}

/// The failure of the given kind at `pos`.
pub open spec fn failure_at(kind: ParseErrorKind, s: Seq<char>, pos: int) -> ParseFailure {
    ParseFailure { kind, position: pos as nat, token: token_at(s, pos) }
}

/// The two keywords of the language.
#[derive(Clone, Copy, Debug, PartialEq, Eq, Structural)]
pub enum Keyword {
    Row,
    Col,
}

/// The keyword whose three letters, in either case, stand at `pos` directly
/// before an opening parenthesis.
pub open spec fn keyword_at(s: Seq<char>, pos: int) -> Option<Keyword> {
    if 0 <= pos && pos + 3 < s.len() && s[pos + 3] == '(' {
        if (s[pos] == 'R' || s[pos] == 'r') && (s[pos + 1] == 'O' || s[pos + 1] == 'o') && (s[pos
            + 2] == 'W' || s[pos + 2] == 'w') {
            Some(Keyword::Row)
        } else if (s[pos] == 'C' || s[pos] == 'c') && (s[pos + 1] == 'O' || s[pos + 1] == 'o') && (
        s[pos + 2] == 'L' || s[pos + 2] == 'l') {
            Some(Keyword::Col)
        } else {
            None
        }
    } else {
        None
    }
}

/// The group that a keyword makes of its children.
pub open spec fn group_of(keyword: Keyword, children: Seq<LayoutSlot>) -> LayoutTree {
    match keyword {
        Keyword::Row => LayoutTree::Row { children },
        Keyword::Col => LayoutTree::Col { children },
    }
}

/// The share, if any, that follows a child which ends at `pos`, and the
/// position of the separator or parenthesis behind it.
pub open spec fn parse_share(s: Seq<char>, pos: int) -> Result<(Option<u32>, int), ParseFailure> {
    let at = skip_spaces(s, pos);
    if at >= s.len() || s[at] == ',' || s[at] == ')' {
        Ok((None, at))
    } else if s[at] == '(' {
        Err(failure_at(ParseErrorKind::UnbalancedParens, s, at))
    } else {
        let end = digits_end(s, at);
        if end == at || end >= s.len() || s[end] != '%' || digits_value(s.subrange(at, end))
            > u32::MAX {
            Err(failure_at(ParseErrorKind::InvalidPercent, s, at))
        } else {
            Ok((Some(digits_value(s.subrange(at, end)) as u32), skip_spaces(s, end + 1)))
        }
    }
}

/// The expression that begins at `pos`, and the position behind it.
pub open spec fn parse_node(s: Seq<char>, pos: int) -> Result<(LayoutTree, int), ParseFailure>
    decreases s.len() - pos, 0int,
{
    if pos < 0 || pos >= s.len() {
        Err(failure_at(ParseErrorKind::MissingIdentifier, s, pos))
    } else {
        match keyword_at(s, pos) {
            Some(keyword) => match parse_children(s, pos + 4) {
                Ok((children, end)) => Ok((group_of(keyword, children), end)),
                Err(failure) => Err(failure),
            },
            None => if name_end(s, pos) == pos {
                Err(failure_at(ParseErrorKind::MissingIdentifier, s, pos))
            } else {
                Ok((LayoutTree::Pane { agent: s.subrange(pos, name_end(s, pos)) }, name_end(s, pos)))
            },
        }
    }
}

/// The children that begin at `pos`, up to the parenthesis that closes their
/// list, and the position behind that parenthesis.
pub open spec fn parse_children(s: Seq<char>, pos: int) -> Result<
    (Seq<LayoutSlot>, int),
    ParseFailure,
>
    decreases s.len() - pos, 1int,
{
    let start = skip_spaces(s, pos);
    if start >= s.len() {
        Err(failure_at(ParseErrorKind::UnbalancedParens, s, start))
    } else {
        proof {
            lemma_skip_forward(s, pos);
        }
        match parse_node(s, start) {
            Err(failure) => Err(failure),
            Ok((node, after)) => match parse_share(s, after) {
                Err(failure) => Err(failure),
                Ok((percent, next)) => {
                    let first = LayoutSlot { node, percent };
                    if next >= s.len() || next < pos {
                        // positions only move forward, so this is the end of the text
                        Err(failure_at(ParseErrorKind::UnbalancedParens, s, next))
                    } else if s[next] == ')' {
                        Ok((seq![first], next + 1))
                    } else if s[next] == ',' {
                        match parse_children(s, next + 1) {
                            Ok((rest, end)) => Ok((seq![first] + rest, end)),
                            Err(failure) => Err(failure),
                        }
                    } else {
                        Err(failure_at(ParseErrorKind::TrailingInput, s, next))
                    }
                },
            },
        }
    }
}

/// The layout that a text denotes, or why it denotes none.
pub open spec fn parse_text(s: Seq<char>) -> Result<LayoutTree, ParseFailure> {
    match parse_node(s, skip_spaces(s, 0)) {
        Err(failure) => Err(failure),
        Ok((tree, after)) => {
            let end = skip_spaces(s, after);
            if end >= s.len() {
                Ok(tree)
            } else if s[end] == ')' {
                Err(failure_at(ParseErrorKind::UnbalancedParens, s, end))
            } else {
                Err(failure_at(ParseErrorKind::TrailingInput, s, end))
            }
        },
    }
}

/// `skip_spaces` never moves backward, and stays within the text.
pub proof fn lemma_skip_forward(s: Seq<char>, pos: int)
    ensures
        skip_spaces(s, pos) >= pos,
        pos <= s.len() ==> skip_spaces(s, pos) <= s.len(),
    decreases s.len() - pos,
{
    if 0 <= pos < s.len() && is_space(s[pos]) {
        lemma_skip_forward(s, pos + 1);
    }
}

/// `name_end` never moves backward, and stays within the text.
pub proof fn lemma_name_forward(s: Seq<char>, pos: int)
    ensures
        name_end(s, pos) >= pos,
        pos <= s.len() ==> name_end(s, pos) <= s.len(),
    decreases s.len() - pos,
{
    if 0 <= pos < s.len() && is_name_char(s[pos]) {
        lemma_name_forward(s, pos + 1);
    }
}

/// `digits_end` moves forward within `s`, passes only digits and stops
/// before a character that is none.
pub proof fn lemma_digits_end(s: Seq<char>, pos: int)
    requires
        0 <= pos <= s.len(),
    ensures
        pos <= digits_end(s, pos) <= s.len(),
        forall|i: int| pos <= i < digits_end(s, pos) ==> is_digit(#[trigger] s[i]),
        digits_end(s, pos) < s.len() ==> !is_digit(s[digits_end(s, pos)]),
    decreases s.len() - pos,
{
    if pos < s.len() && is_digit(s[pos]) {
        lemma_digits_end(s, pos + 1);
    }
}

/// The outcome of parsing an expression, as a value of the model.
pub open spec fn node_outcome(outcome: Result<(LayoutNode, usize), ParseError>) -> Result<
    (LayoutTree, int),
    ParseFailure,
> {
    match outcome {
        Ok((node, end)) => Ok((node@, end as int)),
        Err(error) => Err(error@),
    }
}

/// The outcome of parsing a list of children, as a value of the model.
pub open spec fn children_outcome(outcome: Result<(Vec<LayoutEntry>, usize), ParseError>) -> Result<
    (Seq<LayoutSlot>, int),
    ParseFailure,
> {
    match outcome {
        Ok((children, end)) => Ok((slots_of(children@), end as int)),
        Err(error) => Err(error@),
    }
}

/// The outcome of parsing a share, as a value of the model.
pub open spec fn share_outcome(outcome: Result<(Option<u32>, usize), ParseError>) -> Result<
    (Option<u32>, int),
    ParseFailure,
> {
    match outcome {
        Ok((percent, end)) => Ok((percent, end as int)),
        Err(error) => Err(error@),
    }
}

/// The outcome of parsing a text, as a value of the model.
pub open spec fn text_outcome(outcome: Result<LayoutNode, ParseError>) -> Result<
    LayoutTree,
    ParseFailure,
> {
    match outcome {
        Ok(node) => Ok(node@),
        Err(error) => Err(error@),
    }
}

fn is_name(c: char) -> (yes: bool)
    ensures
        yes == is_name_char(c),
{
    !is_space_char(c) && c != ',' && c != '(' && c != ')'
}

/// The end of the run of name characters that begins at `pos`.
fn scan_name(s: &[char], pos: usize) -> (end: usize)
    requires
        pos <= s.len(),
    ensures
        end == name_end(s@, pos as int),
        pos <= end <= s.len(),
{
    let mut i: usize = pos;
    while i < s.len() && is_name(s[i])
        invariant
            pos <= i <= s.len(),
            name_end(s@, pos as int) == name_end(s@, i as int),
        decreases s.len() - i,
    {
        i += 1;
    }
    i
}

/// The end of the run of digits that begins at `pos`.
fn scan_digits(s: &[char], pos: usize) -> (end: usize)
    requires
        pos <= s.len(),
    ensures
        end == digits_end(s@, pos as int),
        pos <= end <= s.len(),
{
    let mut i: usize = pos;
    while i < s.len() && is_digit_char(s[i])
        invariant
            pos <= i <= s.len(),
            digits_end(s@, pos as int) == digits_end(s@, i as int),
        decreases s.len() - i,
    {
        i += 1;
    }
    i
}

/// The error of the given kind at `pos`, with the token found there.
fn error_at(kind: ParseErrorKind, s: &[char], pos: usize) -> (error: ParseError)
    requires
        pos <= s.len(),
    ensures
        error@ == failure_at(kind, s@, pos as int),
{
    let token = if pos >= s.len() {
        Vec::new()
    } else if is_name(s[pos]) {
        let end = scan_name(s, pos);
        copy_range(s, pos, end)
    } else {
        let mut one: Vec<char> = Vec::new();
        one.push(s[pos]);
        assert(one@ =~= seq![s@[pos as int]]);
        one
    };
    ParseError { kind, position: pos, token: string_of(token.as_slice()) }
}

/// The keyword at `pos`, if one stands there before a parenthesis.
pub(crate) fn match_keyword(s: &[char], pos: usize) -> (keyword: Option<Keyword>)
    requires
        pos <= s.len(),
    ensures
        keyword == keyword_at(s@, pos as int),
{
    if s.len() - pos > 3 && s[pos + 3] == '(' {
        let a = s[pos];
        let b = s[pos + 1];
        let c = s[pos + 2];
        if (a == 'R' || a == 'r') && (b == 'O' || b == 'o') && (c == 'W' || c == 'w') {
            Some(Keyword::Row)
        } else if (a == 'C' || a == 'c') && (b == 'O' || b == 'o') && (c == 'L' || c == 'l') {
            Some(Keyword::Col)
        } else {
            None
        }
    } else {
        None
    }
}

/// The share that follows a child which ends at `pos`.
fn parse_share_at(s: &[char], pos: usize) -> (outcome: Result<(Option<u32>, usize), ParseError>)
    requires
        pos <= s.len(),
    ensures
        share_outcome(outcome) == parse_share(s@, pos as int),
        outcome matches Ok((_, next)) ==> pos <= next <= s.len(),
{
    let at = skip_spaces_from(s, pos);
    if at >= s.len() || s[at] == ',' || s[at] == ')' {
        return Ok((None, at));
    }
    if s[at] == '(' {
        return Err(error_at(ParseErrorKind::UnbalancedParens, s, at));
    }
    let end = scan_digits(s, at);
    if end == at || end >= s.len() || s[end] != '%' {
        return Err(error_at(ParseErrorKind::InvalidPercent, s, at));
    }
    proof {
        lemma_digits_end(s@, at as int);
        assert(all_digits(s@.subrange(at as int, end as int)));
    }
    match digits_to_number(s, at, end, 0xFFFF_FFFF) {
        None => Err(error_at(ParseErrorKind::InvalidPercent, s, at)),
        Some(value) => {
            let next = skip_spaces_from(s, end + 1);
            Ok((Some(value as u32), next))
        },
    }
}

/// The expression that begins at `pos`.
fn parse_node_at(s: &[char], pos: usize) -> (outcome: Result<(LayoutNode, usize), ParseError>)
    requires
        pos <= s.len(),
    ensures
        node_outcome(outcome) == parse_node(s@, pos as int),
        outcome matches Ok((_, end)) ==> pos <= end <= s.len(),
    decreases s.len() - pos, 0int,
{
    if pos >= s.len() {
        return Err(error_at(ParseErrorKind::MissingIdentifier, s, pos));
    }
    match match_keyword(s, pos) {
        Some(keyword) => match parse_children_at(s, pos + 4) {
            Ok((children, end)) => {
                let node = match keyword {
                    Keyword::Row => LayoutNode::Row { children },
                    Keyword::Col => LayoutNode::Col { children },
                };
                proof {
                    lemma_children_view(node);
                }
                Ok((node, end))
            },
            Err(error) => Err(error),
        },
        None => {
            let end = scan_name(s, pos);
            if end == pos {
                Err(error_at(ParseErrorKind::MissingIdentifier, s, pos))
            } else {
                let name = copy_range(s, pos, end);
                Ok((LayoutNode::Pane { agent: string_of(name.as_slice()) }, end))
            }
        },
    }
}

/// What `parse_children` gives from `pos` on, behind the children in `done`.
pub open spec fn children_after(done: Seq<LayoutSlot>, s: Seq<char>, pos: int) -> Result<
    (Seq<LayoutSlot>, int),
    ParseFailure,
> {
    match parse_children(s, pos) {
        Ok((rest, end)) => Ok((done + rest, end)),
        Err(failure) => Err(failure),
    }
}

/// The children that begin at `pos`, up to the closing parenthesis.
fn parse_children_at(s: &[char], pos: usize) -> (outcome: Result<
    (Vec<LayoutEntry>, usize),
    ParseError,
>)
    requires
        pos <= s.len(),
    ensures
        children_outcome(outcome) == parse_children(s@, pos as int),
        outcome matches Ok((_, end)) ==> pos <= end <= s.len(),
    decreases s.len() - pos, 1int,
{
    let mut children: Vec<LayoutEntry> = Vec::new();
    let mut at: usize = pos;
    assert(slots_of(children@) =~= Seq::<LayoutSlot>::empty());
    loop
        invariant
            pos <= at <= s.len(),
            parse_children(s@, pos as int) == children_after(slots_of(children@), s@, at as int),
        decreases s.len() - at,
    {
        let ghost done = slots_of(children@);
        let start = skip_spaces_from(s, at);
        if start >= s.len() {
            return Err(error_at(ParseErrorKind::UnbalancedParens, s, start));
        }
        let (node, after) = match parse_node_at(s, start) {
            Ok(found) => found,
            Err(error) => {
                return Err(error);
            },
        };
        let (percent, next) = match parse_share_at(s, after) {
            Ok(found) => found,
            Err(error) => {
                return Err(error);
            },
        };
        if next >= s.len() {
            return Err(error_at(ParseErrorKind::UnbalancedParens, s, next));
        }
        let ghost first = LayoutSlot { node: node@, percent };
        children.push(LayoutEntry { node, percent });
        assert(slots_of(children@) =~= done + seq![first]);
        if s[next] == ')' {
            return Ok((children, next + 1));
        }
        if s[next] != ',' {
            return Err(error_at(ParseErrorKind::TrailingInput, s, next));
        }
        proof {
            match parse_children(s@, next + 1) {
                Ok((rest, end)) => {
                    assert(done + (seq![first] + rest) =~= (done + seq![first]) + rest);
                },
                Err(_) => {},
            }
        }
        at = next + 1;
    }
}

/// Parses a layout expression.
///
/// Gives the layout that the text denotes, or the failure with its kind, its
/// position and the offending token: a name is missing where an expression or
/// a child must begin; a parenthesis is not balanced; what follows a child is
/// no share; or something follows the expression.
pub fn parse_layout_expr(input: &str) -> (outcome: Result<LayoutNode, ParseError>)
    ensures
        text_outcome(outcome) == parse_text(input@),
{
    let chars = chars_of(input);
    parse_chars(chars.as_slice())
}

/// Parses a layout expression given as characters.
pub fn parse_chars(s: &[char]) -> (outcome: Result<LayoutNode, ParseError>)
    ensures
        text_outcome(outcome) == parse_text(s@),
{
    let start = skip_spaces_from(s, 0);
    match parse_node_at(s, start) {
        Err(error) => Err(error),
        Ok((node, after)) => {
            let end = skip_spaces_from(s, after);
            if end >= s.len() {
                Ok(node)
            } else if s[end] == ')' {
                Err(error_at(ParseErrorKind::UnbalancedParens, s, end))
            } else {
                Err(error_at(ParseErrorKind::TrailingInput, s, end))
            }
        },
    }
}

/// The text of a share: a space, the number and `%`; nothing where there
/// is no share.
pub open spec fn share_text(percent: Option<u32>) -> Seq<char> {
    match percent {
        Some(p) => seq![' '] + decimal(p as nat) + seq!['%'],
        None => Seq::empty(),
    }
}

/// The canonical text of a layout: a pane is its name; a row or a column is
/// its keyword in upper case and its children in parentheses, separated by a
/// comma and a space, each followed by its share where it has one.
pub open spec fn expr_of(tree: LayoutTree) -> Seq<char>
    decreases tree,
{
    match tree {
        LayoutTree::Pane { agent } => agent,
        LayoutTree::Row { children } => seq!['R', 'O', 'W', '('] + slots_text(children, false)
            + seq![')'],
        LayoutTree::Col { children } => seq!['C', 'O', 'L', '('] + slots_text(children, false)
            + seq![')'],
    }
}

/// The text of a list of children; with `separated`, each child is preceded
/// by a comma and a space, else each but the first.
pub open spec fn slots_text(slots: Seq<LayoutSlot>, separated: bool) -> Seq<char>
    decreases slots,
{
    if slots.len() == 0 {
        Seq::empty()
    } else {
        (if separated {
            seq![',', ' ']
        } else {
            Seq::empty()
        }) + expr_of(slots[0].node) + share_text(slots[0].percent) + slots_text(
            slots.drop_first(),
            true,
        )
    }
}

/// Appends the canonical text of the entries to `out`.
fn write_entries(out: &mut Vec<char>, entries: &Vec<LayoutEntry>)
    ensures
        final(out)@ == old(out)@ + slots_text(slots_of(entries@), false),
    decreases entries,
{
    let ghost before = out@;
    let ghost all = slots_of(entries@);
    let mut i: usize = 0;
    assert(all.skip(0) =~= all);
    while i < entries.len()
        invariant
            i <= entries.len(),
            all == slots_of(entries@),
            out@ + slots_text(all.skip(i as int), i > 0) == before + slots_text(all, false),
        decreases entries.len() - i,
    {
        let ghost rest = all.skip(i as int);
        let ghost start = out@;
        assert(rest.drop_first() =~= all.skip(i + 1));
        assert(rest[0] == entries@[i as int]@);
        if i > 0 {
            out.push(',');
            out.push(' ');
        }
        write_node(out, &entries[i].node);
        match entries[i].percent {
            Some(p) => {
                out.push(' ');
                push_decimal(out, p as u64);
                out.push('%');
            },
            None => {},
        }
        assert(out@ =~= start + ((if i > 0 {
            seq![',', ' ']
        } else {
            Seq::empty()
        }) + expr_of(rest[0].node) + share_text(rest[0].percent)));
        assert(out@ + slots_text(all.skip(i + 1), true) =~= start + slots_text(rest, i > 0));
        i += 1;
    }
    assert(slots_text(all.skip(entries.len() as int), entries.len() > 0) =~= Seq::<char>::empty());
    assert(out@ + Seq::<char>::empty() =~= out@);
}

/// Appends the canonical text of the layout to `out`.
fn write_node(out: &mut Vec<char>, node: &LayoutNode)
    ensures
        final(out)@ == old(out)@ + expr_of(node@),
    decreases node,
{
    proof {
        lemma_children_view(*node);
    }
    let ghost before = out@;
    match node {
        LayoutNode::Pane { agent } => {
            push_str(out, agent.as_str());
        },
        LayoutNode::Row { children } => {
            out.push('R');
            out.push('O');
            out.push('W');
            out.push('(');
            write_entries(out, children);
            out.push(')');
            assert(out@ =~= before + expr_of(node@));
        },
        LayoutNode::Col { children } => {
            out.push('C');
            out.push('O');
            out.push('L');
            out.push('(');
            write_entries(out, children);
            out.push(')');
            assert(out@ =~= before + expr_of(node@));
        },
    }
}

/// Serializes a layout to its canonical expression: keywords in upper case,
/// children separated by a comma and a space, shares only where recorded. A
/// pane is written as its bare name, so an unnamed pane gives the empty text.
pub fn serialize_layout_expr(node: &LayoutNode) -> (text: String)
    ensures
        text@ == expr_of(node@),
{
    let mut out: Vec<char> = Vec::new();
    write_node(&mut out, node);
    assert(Seq::<char>::empty() + expr_of(node@) =~= expr_of(node@));
    string_of(out.as_slice())
}

/// Whether `name` can be read back as a name: it is not empty and holds
/// neither white space nor a comma nor a parenthesis.
pub open spec fn is_name_text(name: Seq<char>) -> bool {
    name.len() > 0 && forall|i: int| 0 <= i < name.len() ==> is_name_char(#[trigger] name[i])
}

/// Whether a layout can be written and read back: every pane has a name
/// that reads as one, and every row and column has a child.
pub open spec fn well_named(tree: LayoutTree) -> bool
    decreases tree,
{
    match tree {
        LayoutTree::Pane { agent } => is_name_text(agent),
        LayoutTree::Row { children } => children.len() > 0 && forall|i: int|
            0 <= i < children.len() ==> well_named((#[trigger] children[i]).node),
        LayoutTree::Col { children } => children.len() > 0 && forall|i: int|
            0 <= i < children.len() ==> well_named((#[trigger] children[i]).node),
    }
}

/// Whether `text` stands in `s` at `pos`.
pub open spec fn has_at(s: Seq<char>, pos: int, text: Seq<char>) -> bool {
    &&& 0 <= pos
    &&& pos + text.len() <= s.len()
    &&& forall|i: int| 0 <= i < text.len() ==> s[pos + i] == #[trigger] text[i]
}

/// Whether an expression can end before `pos`: the text ends there, or a
/// space, a comma or a closing parenthesis stands there.
pub open spec fn stops_at(s: Seq<char>, pos: int) -> bool {
    pos >= s.len() || s[pos] == ' ' || s[pos] == ',' || s[pos] == ')'
}

/// The text of the first child and of all that follows it up to and with the
/// parenthesis that closes the list.
pub open spec fn list_text(slots: Seq<LayoutSlot>) -> Seq<char> {
    expr_of(slots[0].node) + share_text(slots[0].percent) + slots_text(slots.drop_first(), true)
        + seq![')']
}

proof fn lemma_name_run(s: Seq<char>, pos: int, n: int)
    requires
        0 <= pos,
        0 <= n,
        pos + n <= s.len(),
        forall|i: int| pos <= i < pos + n ==> is_name_char(#[trigger] s[i]),
        pos + n == s.len() || !is_name_char(s[pos + n]),
    ensures
        name_end(s, pos) == pos + n,
    decreases n,
{
    if n > 0 {
        assert(is_name_char(s[pos]));
        lemma_name_run(s, pos + 1, n - 1);
    }
}

proof fn lemma_digits_run(s: Seq<char>, pos: int, n: int)
    requires
        0 <= pos,
        0 <= n,
        pos + n <= s.len(),
        forall|i: int| pos <= i < pos + n ==> is_digit(#[trigger] s[i]),
        pos + n == s.len() || !is_digit(s[pos + n]),
    ensures
        digits_end(s, pos) == pos + n,
    decreases n,
{
    if n > 0 {
        assert(is_digit(s[pos]));
        lemma_digits_run(s, pos + 1, n - 1);
    }
}

/// The text of a layout that can be read back begins with a name character.
proof fn lemma_first_char(tree: LayoutTree)
    requires
        well_named(tree),
    ensures
        expr_of(tree).len() > 0,
        is_name_char(expr_of(tree)[0]),
{
    match tree {
        LayoutTree::Pane { agent } => {
            assert(is_name_char(agent[0]));
        },
        LayoutTree::Row { children } => {
            assert(expr_of(tree)[0] == 'R');
        },
        LayoutTree::Col { children } => {
            assert(expr_of(tree)[0] == 'C');
        },
    }
}

/// Reading the text of a layout where it stands in `s` gives the layout back.
proof fn lemma_parse_written_node(s: Seq<char>, pos: int, tree: LayoutTree)
    requires
        well_named(tree),
        has_at(s, pos, expr_of(tree)),
        stops_at(s, pos + expr_of(tree).len()),
    ensures
        parse_node(s, pos) == Ok::<(LayoutTree, int), ParseFailure>(
            (tree, pos + expr_of(tree).len()),
        ),
    decreases tree, 0int,
{
    let text = expr_of(tree);
    let end = pos + text.len();
    lemma_first_char(tree);
    match tree {
        LayoutTree::Pane { agent } => {
            assert forall|i: int| pos <= i < end implies is_name_char(#[trigger] s[i]) by {
                assert(s[pos + (i - pos)] == agent[i - pos]);
            }
            lemma_name_run(s, pos, agent.len() as int);
            assert(keyword_at(s, pos) is None) by {
                if pos + 3 < s.len() {
                    if agent.len() > 3 {
                        assert(is_name_char(s[pos + 3]));
                    } else if agent.len() < 3 {
                        assert(!is_name_char(s[end]));
                    }
                }
            }
            assert(s.subrange(pos, end) =~= agent);
        },
        LayoutTree::Row { children } => {
            let head = seq!['R', 'O', 'W', '('];
            let inner = slots_text(children, false);
            assert(text == head + inner + seq![')']);
            assert(s[pos + 0] == text[0] && s[pos + 1] == text[1] && s[pos + 2] == text[2] && s[pos
                + 3] == text[3]);
            assert(keyword_at(s, pos) == Some(Keyword::Row));
            lemma_first_char(children[0].node);
            assert(inner + seq![')'] =~= list_text(children));
            assert(text =~= head + list_text(children));
            assert(has_at(s, pos + 4, list_text(children))) by {
                assert forall|i: int| 0 <= i < list_text(children).len() implies s[pos + 4 + i]
                    == #[trigger] list_text(children)[i] by {
                    assert(s[pos + (4 + i)] == text[4 + i]);
                }
            }
            assert(s[pos + 4] == list_text(children)[0]);
            assert(list_text(children)[0] == expr_of(children[0].node)[0]);
            lemma_parse_written_slots(s, pos + 4, pos + 4, children);
        },
        LayoutTree::Col { children } => {
            let head = seq!['C', 'O', 'L', '('];
            let inner = slots_text(children, false);
            assert(text == head + inner + seq![')']);
            assert(s[pos + 0] == text[0] && s[pos + 1] == text[1] && s[pos + 2] == text[2] && s[pos
                + 3] == text[3]);
            assert(keyword_at(s, pos) == Some(Keyword::Col));
            lemma_first_char(children[0].node);
            assert(inner + seq![')'] =~= list_text(children));
            assert(text =~= head + list_text(children));
            assert(has_at(s, pos + 4, list_text(children))) by {
                assert forall|i: int| 0 <= i < list_text(children).len() implies s[pos + 4 + i]
                    == #[trigger] list_text(children)[i] by {
                    assert(s[pos + (4 + i)] == text[4 + i]);
                }
            }
            assert(s[pos + 4] == list_text(children)[0]);
            assert(list_text(children)[0] == expr_of(children[0].node)[0]);
            lemma_parse_written_slots(s, pos + 4, pos + 4, children);
        },
    }
}

/// A text that stands in `s` has each of its two parts standing in `s`.
proof fn lemma_has_at_parts(s: Seq<char>, pos: int, first: Seq<char>, second: Seq<char>)
    requires
        has_at(s, pos, first + second),
    ensures
        has_at(s, pos, first),
        has_at(s, pos + first.len(), second),
{
    let whole = first + second;
    assert forall|i: int| 0 <= i < first.len() implies s[pos + i] == #[trigger] first[i] by {
        assert(s[pos + i] == whole[i]);
    }
    assert forall|i: int| 0 <= i < second.len() implies s[pos + first.len() + i]
        == #[trigger] second[i] by {
        assert(s[pos + (first.len() + i)] == whole[first.len() + i]);
    }
}

/// Reading a written share where it stands in `s` before a comma or a
/// closing parenthesis gives the share back.
proof fn lemma_parse_written_share(s: Seq<char>, pos: int, percent: Option<u32>)
    requires
        has_at(s, pos, share_text(percent)),
        pos + share_text(percent).len() < s.len(),
        s[pos + share_text(percent).len()] == ',' || s[pos + share_text(percent).len()] == ')',
    ensures
        parse_share(s, pos) == Ok::<(Option<u32>, int), ParseFailure>(
            (percent, pos + share_text(percent).len()),
        ),
{
    let share = share_text(percent);
    let next = pos + share.len();
    assert(skip_spaces(s, next) == next);
    match percent {
        None => {},
        Some(p) => {
            let digits = decimal(p as nat);
            lemma_decimal(p as nat);
            assert(share =~= seq![' '] + (digits + seq!['%']));
            lemma_has_at_parts(s, pos, seq![' '], digits + seq!['%']);
            assert(s[pos + 0] == seq![' '][0]);
            let at = pos + 1;
            lemma_has_at_parts(s, at, digits, seq!['%']);
            let end = at + digits.len();
            assert(s[end + 0] == seq!['%'][0]);
            assert forall|i: int| at <= i < end implies is_digit(#[trigger] s[i]) by {
                assert(s[at + (i - at)] == digits[i - at]);
            }
            assert(!is_space(s[at])) by {
                assert(is_digit(s[at]));
            }
            assert(skip_spaces(s, pos) == skip_spaces(s, at));
            assert(skip_spaces(s, at) == at);
            lemma_digits_run(s, at, digits.len() as int);
            assert(s.subrange(at, end) =~= digits);
            assert(end + 1 == next);
        },
    }
}

/// The character with which the text behind a child begins: a space before
/// a share, else a comma before another child, else the closing parenthesis.
proof fn lemma_text_behind_child(percent: Option<u32>, rest: Seq<LayoutSlot>)
    ensures
        ({
            let behind = share_text(percent) + (slots_text(rest, true) + seq![')']);
            behind.len() > 0 && (behind[0] == ' ' || behind[0] == ',' || behind[0] == ')')
        }),
        ({
            let tail = slots_text(rest, true) + seq![')'];
            tail.len() > 0 && (tail[0] == ',' || tail[0] == ')') && (rest.len() == 0 ==> tail
                =~= seq![')']) && (rest.len() > 0 ==> tail[0] == ',')
        }),
{
    let tail = slots_text(rest, true) + seq![')'];
    if rest.len() > 0 {
        assert(slots_text(rest, true)[0] == ',');
        assert(tail[0] == ',');
    } else {
        assert(tail =~= seq![')']);
    }
    match percent {
        Some(p) => {
            assert(share_text(percent)[0] == ' ');
        },
        None => {
            assert(share_text(percent) + tail =~= tail);
        },
    }
}

/// Reading a written list of children where it stands in `s` gives the
/// children back.
proof fn lemma_parse_written_slots(s: Seq<char>, from: int, pos: int, slots: Seq<LayoutSlot>)
    requires
        slots.len() > 0,
        forall|i: int| 0 <= i < slots.len() ==> well_named((#[trigger] slots[i]).node),
        0 <= from <= pos,
        skip_spaces(s, from) == pos,
        has_at(s, pos, list_text(slots)),
    ensures
        parse_children(s, from) == Ok::<(Seq<LayoutSlot>, int), ParseFailure>(
            (slots, pos + list_text(slots).len()),
        ),
    decreases slots, 1int,
{
    let first = slots[0];
    let rest = slots.drop_first();
    let node_text = expr_of(first.node);
    let share = share_text(first.percent);
    let tail = slots_text(rest, true) + seq![')'];
    let after = pos + node_text.len();
    let next = after + share.len();
    assert(list_text(slots) =~= node_text + (share + tail));
    lemma_has_at_parts(s, pos, node_text, share + tail);
    lemma_has_at_parts(s, after, share, tail);
    lemma_text_behind_child(first.percent, rest);
    assert(s[after + 0] == (share + tail)[0]);
    assert(s[next + 0] == tail[0]);
    assert(stops_at(s, after));
    lemma_parse_written_node(s, pos, first.node);
    lemma_parse_written_share(s, after, first.percent);
    if rest.len() == 0 {
        assert(seq![first] =~= slots);
    } else {
        lemma_parse_written_rest(s, next, rest);
        assert(seq![first] + rest =~= slots);
    }
}

/// Reading what is written behind a child that is not the last gives the
/// other children back.
proof fn lemma_parse_written_rest(s: Seq<char>, next: int, rest: Seq<LayoutSlot>)
    requires
        rest.len() > 0,
        forall|i: int| 0 <= i < rest.len() ==> well_named((#[trigger] rest[i]).node),
        0 <= next,
        has_at(s, next, slots_text(rest, true) + seq![')']),
    ensures
        parse_children(s, next + 1) == Ok::<(Seq<LayoutSlot>, int), ParseFailure>(
            (rest, next + (slots_text(rest, true) + seq![')']).len()),
        ),
    decreases rest, 2int,
{
    let tail = slots_text(rest, true) + seq![')'];
    let more = list_text(rest);
    lemma_first_char(rest[0].node);
    assert(tail =~= seq![',', ' '] + more);
    lemma_has_at_parts(s, next, seq![',', ' '], more);
    assert(s[next + 1] == seq![',', ' '][1]);
    assert(s[next + 2 + 0] == more[0]);
    assert(more[0] == expr_of(rest[0].node)[0]);
    assert(skip_spaces(s, next + 1) == skip_spaces(s, next + 2));
    assert(skip_spaces(s, next + 2) == next + 2);
    lemma_parse_written_slots(s, next + 1, next + 2, rest);
}

/// Writing a layout and reading the text gives the layout back, for every
/// layout whose panes have names that read as names and whose rows and
/// columns have children.
pub proof fn lemma_parse_serialize_round_trip(tree: LayoutTree)
    requires
        well_named(tree),
    ensures
        parse_text(expr_of(tree)) == Ok::<LayoutTree, ParseFailure>(tree),
{
    let s = expr_of(tree);
    lemma_first_char(tree);
    assert(skip_spaces(s, 0) == 0);
    lemma_parse_written_node(s, 0, tree);
    assert(skip_spaces(s, s.len() as int) == s.len());
}

/// A share that is read ends at or behind the place where reading began,
/// within the text.
pub proof fn lemma_share_moves_forward(s: Seq<char>, pos: int)
    requires
        0 <= pos <= s.len(),
    ensures
        parse_share(s, pos) matches Ok((_, next)) ==> pos <= next <= s.len(),
{
    lemma_skip_forward(s, pos);
    let at = skip_spaces(s, pos);
    lemma_digits_end(s, at);
    if at < s.len() {
        lemma_skip_forward(s, digits_end(s, at) + 1);
    }
}

/// An expression that is read ends behind the place where it began, within
/// the text; so does a list of children. Reading only moves forward: the
/// guard in `parse_children` against a position that moved backward never
/// decides anything.
pub proof fn lemma_parse_moves_forward(s: Seq<char>, pos: int)
    requires
        0 <= pos,
    ensures
        parse_node(s, pos) matches Ok((_, end)) ==> pos < end <= s.len(),
        parse_children(s, pos) matches Ok((_, end)) ==> pos < end <= s.len(),
{
    lemma_node_moves_forward(s, pos);
    lemma_children_move_forward(s, pos);
}

/// A list of children that is read ends behind the place where it began,
/// within the text.
proof fn lemma_children_move_forward(s: Seq<char>, pos: int)
    requires
        0 <= pos,
    ensures
        parse_children(s, pos) matches Ok((_, end)) ==> pos < end <= s.len(),
    decreases s.len() - pos, 1int,
{
    lemma_skip_forward(s, pos);
    let start = skip_spaces(s, pos);
    if start < s.len() {
        lemma_node_moves_forward(s, start);
        match parse_node(s, start) {
            Ok((_, after)) => {
                lemma_share_moves_forward(s, after);
                match parse_share(s, after) {
                    Ok((_, next)) => {
                        if next < s.len() && s[next] == ',' {
                            lemma_children_move_forward(s, next + 1);
                        }
                    },
                    Err(_) => {},
                }
            },
            Err(_) => {},
        }
    }
}

/// An expression that is read ends behind the place where it began, within
/// the text.
proof fn lemma_node_moves_forward(s: Seq<char>, pos: int)
    requires
        0 <= pos,
    ensures
        parse_node(s, pos) matches Ok((_, end)) ==> pos < end <= s.len(),
    decreases s.len() - pos, 0int,
{
    if pos < s.len() {
        lemma_name_forward(s, pos);
        if keyword_at(s, pos) is Some {
            lemma_children_move_forward(s, pos + 4);
        }
    }
}

} // verus!
