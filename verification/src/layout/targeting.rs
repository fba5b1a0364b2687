//! The target resolver: from an addressing string to a multiplexer target.
//!
//! A target is either P-notation, `P<window>` or `P<window>.<pane>`, which
//! names a pane by its indices, or the name of an agent, which stands for
//! the session that the agent is assigned to. P-notation is recognised by a
//! `P` or `p` directly followed by a digit; anything else is a name.

use vstd::prelude::*;
use crate::text::{
    back_spaces, chars_of, copy_range, decimal, find_char, find_from, is_digit, is_digit_char,
    is_space, lemma_find_from, parse_u32, push_decimal, quote, quoting, same_chars, skip_spaces,
    split, split_on, string_of, trim, trimmed, u32_of,
};
use crate::types::agent::Agent;

verus! {

/// Whether `c` is a letter or a number as Unicode defines them: the result
/// of `char::is_alphanumeric`.
pub uninterp spec fn is_alphanumeric(c: char) -> bool;

/// Whether `c` is one of the letters `A` to `Z` and `a` to `z` or one of the
/// digits `0` to `9`.
pub open spec fn is_ascii_alphanumeric(c: char) -> bool {
    ('a' <= c <= 'z') || ('A' <= c <= 'Z') || ('0' <= c <= '9')
}

/// Whether `c` is a letter or a number: among the first 128 characters the
/// letters `A` to `Z` and `a` to `z` and the digits `0` to `9`, beyond them
/// what Unicode counts as alphabetic or numeric.
pub open spec fn is_letter_or_number(c: char) -> bool {
    if (c as u32) < 128 {
        is_ascii_alphanumeric(c)
    } else {
        is_alphanumeric(c)
    }
}

/// `char::is_alphanumeric` of the standard library: whether the character
/// has the property Alphabetic or one of the general categories for numbers
/// of the Unicode Character Database. The result depends on the character
/// alone. Among the first 128 characters that database gives the property
/// to the 52 letters and the categories to the 10 digits, and to no other.
#[verifier::external_body]
fn char_is_alphanumeric(c: char) -> (yes: bool)
    ensures
        yes == is_alphanumeric(c),
        (c as u32) < 128 ==> yes == is_ascii_alphanumeric(c),
{
    c.is_alphanumeric()
}

/// Whether a trimmed target is P-notation: `P` or `p` directly followed by
/// a digit.
pub open spec fn is_p_target(target: Seq<char>) -> bool {
    target.len() > 1 && (target[0] == 'P' || target[0] == 'p') && is_digit(target[1])
}

/// The multiplexer target `:<window>.<pane>`.
pub open spec fn pane_target(window: u32, pane: u32) -> Seq<char> {
    seq![':'] + decimal(window as nat) + seq!['.'] + decimal(pane as nat)
}

/// What P-notation resolves to: the pane of its window and pane numbers,
/// with pane 0 where only a window is given. Both must be unsigned numbers.
pub open spec fn p_target_of(target: Seq<char>) -> Result<Seq<char>, Seq<char>> {
    let body = target.drop_first();
    let dot = find_from(body, 0, '.');
    if dot < body.len() {
        let window = body.subrange(0, dot);
        let pane = body.subrange(dot + 1, body.len() as int);
        if u32_of(window) is None {
            Err(quoting("invalid window number in P-notation: '"@, window, "'"@))
        } else if u32_of(pane) is None {
            Err(quoting("invalid pane number in P-notation: '"@, pane, "'"@))
        } else {
            Ok(pane_target(u32_of(window)->0, u32_of(pane)->0))
        }
    } else {
        if u32_of(body) is None {
            Err(quoting("invalid window number in P-notation: '"@, body, "'"@))
        } else {
            Ok(pane_target(u32_of(body)->0, 0))
        }
    }
}

/// The position of the first agent with the given name; the length of the
/// list where there is none.
pub open spec fn position_of(agents: Seq<Agent>, name: Seq<char>) -> int
    decreases agents.len(),
{
    if agents.len() == 0 {
        0
    } else if agents[0].name@ == name {
        0
    } else {
        1 + position_of(agents.drop_first(), name)
    }
}

/// What a name resolves to: the session of the first agent of that name.
pub open spec fn agent_target_of(name: Seq<char>, agents: Seq<Agent>) -> Result<
    Seq<char>,
    Seq<char>,
> {
    let at = position_of(agents, name);
    if at >= agents.len() {
        Err(quoting("unknown agent: '"@, name, "'"@))
    } else {
        match agents[at].session_name() {
            None => Err(quoting("agent '"@, name, "' has no session assigned"@)),
            Some(session) => Ok(session),
        }
    }
}

/// What a target resolves to, or the message that says why it does not.
pub open spec fn target_of(target: Seq<char>, agents: Seq<Agent>) -> Result<Seq<char>, Seq<char>> {
    let name = trimmed(target);
    if name.len() == 0 {
        Err("empty target string"@)
    } else if is_p_target(name) {
        p_target_of(name)
    } else {
        agent_target_of(name, agents)
    }
}

/// An outcome with its texts as values of the model.
pub open spec fn outcome_text(outcome: Result<String, String>) -> Result<Seq<char>, Seq<char>> {
    match outcome {
        Ok(text) => Ok(text@),
        Err(message) => Err(message@),
    }
}

/// Whether a trimmed target is P-notation.
fn is_p_notation(target: &[char]) -> (yes: bool)
    ensures
        yes == is_p_target(target@),
{
    target.len() > 1 && (target[0] == 'P' || target[0] == 'p') && is_digit_char(target[1])
}

/// The text `:<window>.<pane>`.
fn format_pane_target(window: u32, pane: u32) -> (text: String)
    ensures
        text@ == pane_target(window, pane),
{
    let mut out: Vec<char> = Vec::new();
    out.push(':');
    push_decimal(&mut out, window as u64);
    out.push('.');
    push_decimal(&mut out, pane as u64);
    assert(out@ =~= pane_target(window, pane));
    string_of(out.as_slice())
}

/// Resolves P-notation.
fn resolve_p_notation(target: &[char]) -> (outcome: Result<String, String>)
    requires
        target.len() > 0,
    ensures
        outcome_text(outcome) == p_target_of(target@),
{
    let body = copy_range(target, 1, target.len());
    assert(body@ =~= target@.drop_first());
    let dot = find_char(body.as_slice(), 0, '.');
    if dot < body.len() {
        let window_text = copy_range(body.as_slice(), 0, dot);
        let pane_text = copy_range(body.as_slice(), dot + 1, body.len());
        let window = match parse_u32(window_text.as_slice()) {
            Some(n) => n,
            None => {
                return Err(
                    quote("invalid window number in P-notation: '", window_text.as_slice(), "'"),
                );
            },
        };
        let pane = match parse_u32(pane_text.as_slice()) {
            Some(n) => n,
            None => {
                return Err(
                    quote("invalid pane number in P-notation: '", pane_text.as_slice(), "'"),
                );
            },
        };
        Ok(format_pane_target(window, pane))
    } else {
        match parse_u32(body.as_slice()) {
            Some(window) => Ok(format_pane_target(window, 0)),
            None => Err(quote("invalid window number in P-notation: '", body.as_slice(), "'")),
        }
    }
}

/// Resolves the name of an agent to the session it is assigned to.
fn resolve_agent_name(name: &[char], agents: &[Agent]) -> (outcome: Result<String, String>)
    ensures
        outcome_text(outcome) == agent_target_of(name@, agents@),
{
    let mut i: usize = 0;
    assert(agents@.skip(0) =~= agents@);
    while i < agents.len()
        invariant
            i <= agents.len(),
            position_of(agents@, name@) == i + position_of(agents@.skip(i as int), name@),
        decreases agents.len() - i,
    {
        proof {
            assert(agents@.skip(i as int)[0] == agents@[i as int]);
            assert(agents@.skip(i as int).drop_first() =~= agents@.skip(i + 1));
        }
        let candidate = chars_of(agents[i].name.as_str());
        if same_chars(candidate.as_slice(), name) {
            return match &agents[i].session {
                Some(session) => Ok(session.clone()),
                None => Err(quote("agent '", name, "' has no session assigned")),
            };
        }
        i += 1;
    }
    Err(quote("unknown agent: '", name, "'"))
}

/// Resolves a target string to a multiplexer target.
///
/// `P<window>` gives `:<window>.0` and `P<window>.<pane>` gives
/// `:<window>.<pane>`. Any other string is the name of an agent and gives the
/// session of the first agent of that name. Fails with a message on an empty
/// target, on P-notation whose parts are no numbers, on a name that no agent
/// has, and on an agent without a session.
pub fn resolve(target: &str, agents: &[Agent]) -> (outcome: Result<String, String>)
    ensures
        outcome_text(outcome) == target_of(target@, agents@),
{
    let chars = chars_of(target);
    let name = trim(chars.as_slice());
    if name.len() == 0 {
        return Err("empty target string".to_owned());
    }
    if is_p_notation(name.as_slice()) {
        return resolve_p_notation(name.as_slice());
    }
    resolve_agent_name(name.as_slice(), agents)
}

/// Whether `c` can stand in the name of an agent: a letter, a number, `-`
/// or `_`.
pub open spec fn is_target_char(c: char) -> bool {
    is_letter_or_number(c) || c == '-' || c == '_'
}

/// Whether every character of `name` can stand in the name of an agent.
fn all_target_chars(name: &[char]) -> (yes: bool)
    ensures
        yes == forall|i: int| 0 <= i < name.len() ==> is_target_char(#[trigger] name@[i]),
{
    let mut i: usize = 0;
    while i < name.len()
        invariant
            i <= name.len(),
            forall|j: int| 0 <= j < i ==> is_target_char(#[trigger] name@[j]),
        decreases name.len() - i,
    {
        let c = name[i];
        if !(char_is_alphanumeric(c) || c == '-' || c == '_') {
            assert(!is_target_char(name@[i as int]));
            return false;
        }
        i += 1;
    }
    true
}

/// Whether P-notation is well formed, or the message that says why not: at
/// most a window and a pane, each an unsigned number.
pub open spec fn p_format_of(target: Seq<char>) -> Result<(), Seq<char>> {
    let parts = split_on(target.drop_first(), '.');
    if parts.len() > 2 {
        Err(quoting("P-notation has too many components: '"@, target, "'"@))
    } else if u32_of(parts[0]) is None {
        Err(quoting("non-numeric component in P-notation: '"@, parts[0], "'"@))
    } else if parts.len() == 2 && u32_of(parts[1]) is None {
        Err(quoting("non-numeric component in P-notation: '"@, parts[1], "'"@))
    } else {
        Ok(())
    }
}

/// Whether a target is well formed, or the message that says why not.
pub open spec fn format_of(target: Seq<char>) -> Result<(), Seq<char>> {
    let name = trimmed(target);
    if name.len() == 0 {
        Err("empty target"@)
    } else if name == seq!['P'] || name == seq!['p'] {
        Err("bare 'P' is ambiguous; use P0, P1.2, etc."@)
    } else if is_p_target(name) {
        p_format_of(name)
    } else if forall|i: int| 0 <= i < name.len() ==> is_target_char(#[trigger] name[i]) {
        Ok(())
    } else {
        Err(quoting("invalid characters in target name: '"@, name, "'"@))
    }
}

/// An outcome with its message as a value of the model.
pub open spec fn format_outcome(outcome: Result<(), String>) -> Result<(), Seq<char>> {
    match outcome {
        Ok(()) => Ok(()),
        Err(message) => Err(message@),
    }
}

/// Checks the form of a target without looking anything up.
///
/// Rejects the empty target, a bare `P` or `p`, P-notation with more than
/// two parts or with a part that is no number, and a name with a character
/// that is neither a letter, a number, `-` nor `_`. A `P` followed by
/// anything but a digit begins a name.
pub fn validate_format(target: &str) -> (outcome: Result<(), String>)
    ensures
        format_outcome(outcome) == format_of(target@),
{
    let chars = chars_of(target);
    let name = trim(chars.as_slice());
    if name.len() == 0 {
        return Err("empty target".to_owned());
    }
    if name.len() == 1 && (name[0] == 'P' || name[0] == 'p') {
        assert(name@ =~= seq![name@[0]]);
        return Err("bare 'P' is ambiguous; use P0, P1.2, etc.".to_owned());
    }
    assert(name@ != seq!['P'] && name@ != seq!['p']) by {
        if name@.len() == 1 {
            assert(name@[0] != 'P' && name@[0] != 'p');
        }
    }
    if is_p_notation(name.as_slice()) {
        let body = copy_range(name.as_slice(), 1, name.len());
        assert(body@ =~= name@.drop_first());
        let parts = split(body.as_slice(), '.');
        proof {
            lemma_find_from(body@, 0, '.');
        }
        if parts.len() > 2 {
            return Err(quote("P-notation has too many components: '", name.as_slice(), "'"));
        }
        if parse_u32(parts[0].as_slice()).is_none() {
            return Err(
                quote("non-numeric component in P-notation: '", parts[0].as_slice(), "'"),
            );
        }
        if parts.len() == 2 && parse_u32(parts[1].as_slice()).is_none() {
            return Err(
                quote("non-numeric component in P-notation: '", parts[1].as_slice(), "'"),
            );
        }
        return Ok(());
    }
    if all_target_chars(name.as_slice()) {
        Ok(())
    } else {
        Err(quote("invalid characters in target name: '", name.as_slice(), "'"))
    }
}

/// A name made of the letters `A` to `Z` and `a` to `z`, the digits `0` to
/// `9`, `-` and `_` is a well-formed target unless it is a bare `P` or `p`
/// or begins as P-notation does. So `Pabc` is a well-formed name.
pub proof fn lemma_plain_name_is_well_formed(name: Seq<char>)
    requires
        name.len() > 0,
        forall|i: int|
            0 <= i < name.len() ==> is_ascii_alphanumeric(#[trigger] name[i]) || name[i] == '-'
                || name[i] == '_',
        name != seq!['P'],
        name != seq!['p'],
        !is_p_target(name),
    ensures
        format_of(name) == Ok::<(), Seq<char>>(()),
{
    let last = name.len() - 1;
    assert(!is_space(name[0]));
    assert(!is_space(name[last]));
    assert(skip_spaces(name, 0) == 0);
    assert(back_spaces(name, name.len() as int) == name.len());
    assert(trimmed(name) =~= name);
    assert forall|i: int| 0 <= i < name.len() implies is_target_char(#[trigger] name[i]) by {
        assert(is_ascii_alphanumeric(name[i]) || name[i] == '-' || name[i] == '_');
    }
}

} // verus!
