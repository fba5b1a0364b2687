//! The parts catalog: named, reusable layout fragments read from markdown.
//!
//! A line that begins with `## ` starts a part named by the rest of the
//! line. The lines that follow, up to the next such line, are its body;
//! lines that begin with `# ` or `### ` do not count. A body with a line
//! `role: <name>` makes an agent. Otherwise a body whose first line that is
//! not blank is a `ROW(...)` or `COL(...)` expression makes a composition.
//! Any other body makes no part. A name identifies one part: where the text
//! defines several parts under one name, the first is kept and the others
//! are dropped. Once all parts are read, a composition with a leaf that
//! names another part which is no agent becomes a session.

use vstd::prelude::*;
use crate::data::layout_expr::{
    keyword_at, match_keyword, parse_chars, parse_text, ParseError, ParseFailure,
};
use crate::text::{
    chars_of, copy_range, first_from, has_prefix, lemma_first_from, lines, lines_of, push_str,
    starts_with, string_of, strings_of, texts_of, trim, trimmed,
};
use crate::types::session::{
    lemma_children_view, slots_of, LayoutEntry, LayoutNode, LayoutSlot, LayoutTree,
};
use crate::types::tiles::{parts_of, Part, Tile, TileKind};

verus! {

/// The parts of a catalog, in the order in which they were defined.
#[derive(Debug)]
pub struct PartRegistry {
    pub parts: Vec<Tile>,
}

impl View for PartRegistry {
    type V = Seq<Part>;

    open spec fn view(&self) -> Seq<Part> {
        parts_of(self.parts@)
    }
}

impl Default for PartRegistry {
    fn default() -> (registry: Self)
        ensures
            registry@ == Seq::<Part>::empty(),
    {
        let registry = PartRegistry { parts: Vec::new() };
        assert(registry@ =~= Seq::<Part>::empty());
        registry
    }
}

impl Clone for PartRegistry {
    fn clone(&self) -> (copy: Self)
        ensures
            copy@ == self@,
    {
        let mut parts: Vec<Tile> = Vec::new();
        let mut i: usize = 0;
        while i < self.parts.len()
            invariant
                i <= self.parts.len(),
                parts.len() == i,
                forall|j: int| 0 <= j < i ==> (#[trigger] parts@[j])@ == self.parts@[j]@,
            decreases self.parts.len() - i,
        {
            parts.push(self.parts[i].clone());
            i += 1;
        }
        let copy = PartRegistry { parts };
        assert(copy@ =~= self@);
        copy
    }
}

/// The name that a line gives to a new part, where the line is a heading of
/// the second level.
pub open spec fn heading_of(line: Seq<char>) -> Option<Seq<char>> {
    if starts_with(line, "## "@) {
        Some(trimmed(line.skip("## "@.len() as int)))
    } else {
        None
    }
}

/// Whether a line is a heading of another level, which no body holds.
pub open spec fn is_other_heading(line: Seq<char>) -> bool {
    starts_with(line, "# "@) || starts_with(line, "### "@)
}

/// The body that begins at line `pos`: the lines up to the next heading of
/// the second level, without the headings of other levels.
pub open spec fn body_from(lines: Seq<Seq<char>>, pos: int) -> Seq<Seq<char>>
    decreases lines.len() - pos,
{
    if pos < 0 || pos >= lines.len() || heading_of(lines[pos]) is Some {
        Seq::empty()
    } else if is_other_heading(lines[pos]) {
        body_from(lines, pos + 1)
    } else {
        seq![lines[pos]] + body_from(lines, pos + 1)
    }
}

/// Whether a line of a body gives a role.
pub open spec fn is_role_line(line: Seq<char>) -> bool {
    starts_with(trimmed(line), "role:"@)
}

/// Whether a line is not blank.
pub open spec fn has_text(line: Seq<char>) -> bool {
    trimmed(line).len() > 0
}

/// Why a body defines no part.
pub enum DropCause {
    /// The body holds no text.
    Blank,
    /// The first text of the body is neither a role nor a `ROW(` or `COL(`
    /// expression.
    NotAPart,
    /// The expression of the body does not parse.
    BadLayout(ParseFailure),
    /// The body defines a part, but an earlier part of the catalog has the
    /// name already.
    DuplicateName,
}

/// The part that a body defines under a name, or why it defines none.
///
/// The first line that gives a role makes an agent of that role. Without
/// such a line, the first line that is not blank must be a `ROW(` or `COL(`
/// expression that parses; it makes a composition.
pub open spec fn reading_of(name: Seq<char>, body: Seq<Seq<char>>) -> Result<Part, DropCause> {
    let role_at = first_from(body, 0, |line: Seq<char>| is_role_line(line));
    let text_at = first_from(body, 0, |line: Seq<char>| has_text(line));
    if role_at < body.len() {
        Ok(
            Part {
                name,
                kind: TileKind::Agent,
                role: Some(trimmed(trimmed(body[role_at]).skip("role:"@.len() as int))),
                layout: None,
            },
        )
    } else if text_at >= body.len() {
        Err(DropCause::Blank)
    } else if keyword_at(trimmed(body[text_at]), 0) is None {
        Err(DropCause::NotAPart)
    } else {
        match parse_text(trimmed(body[text_at])) {
            Ok(layout) => Ok(
                Part { name, kind: TileKind::Composition, role: None, layout: Some(layout) },
            ),
            Err(failure) => Err(DropCause::BadLayout(failure)),
        }
    }
}

/// A part of the text that made no tile: its name and the cause.
pub struct Dropped {
    pub name: Seq<char>,
    pub cause: DropCause,
}

/// Why a part of the text made no tile.
#[derive(Debug)]
pub enum DropReason {
    /// The body holds no text.
    Blank,
    /// The first text of the body is neither a role nor a `ROW(` or `COL(`
    /// expression.
    NotAPart,
    /// The expression of the body does not parse.
    BadLayout(ParseError),
    /// The body defines a part, but an earlier part of the catalog has the
    /// name already.
    DuplicateName,
}

impl View for DropReason {
    type V = DropCause;

    open spec fn view(&self) -> DropCause {
        match self {
            DropReason::Blank => DropCause::Blank,
            DropReason::NotAPart => DropCause::NotAPart,
            DropReason::BadLayout(error) => DropCause::BadLayout(error@),
            DropReason::DuplicateName => DropCause::DuplicateName,
        }
    }
}

/// A part of the text that made no tile.
#[derive(Debug)]
pub struct DroppedPart {
    pub name: String,
    pub reason: DropReason,
}

impl View for DroppedPart {
    type V = Dropped;

    open spec fn view(&self) -> Dropped {
        Dropped { name: self.name@, cause: self.reason@ }
    }
}

/// The dropped parts that a list of records stands for.
pub open spec fn dropped_view(records: Seq<DroppedPart>) -> Seq<Dropped> {
    Seq::new(records.len(), |i: int| records[i]@)
}

/// The parts that a list of borrowed tiles stands for, in the same order.
pub open spec fn parts_found(found: Seq<&Tile>) -> Seq<Part> {
    Seq::new(found.len(), |i: int| found[i]@)
}

/// Whether some part has the given name.
pub open spec fn is_part_name(parts: Seq<Part>, name: Seq<char>) -> bool {
    exists|i: int| 0 <= i < parts.len() && (#[trigger] parts[i]).name == name
}

/// What the heading in line `pos` defines, where that line is a heading of
/// the second level: the part of its name and its body, or why there is none.
pub open spec fn reading_at(lines: Seq<Seq<char>>, pos: int) -> Option<Result<Part, DropCause>> {
    match heading_of(lines[pos]) {
        Some(name) => Some(reading_of(name, body_from(lines, pos + 1))),
        None => None,
    }
}

/// The name that the heading in line `pos` gives; empty where the line is
/// no heading of the second level.
pub open spec fn name_at(lines: Seq<Seq<char>>, pos: int) -> Seq<char> {
    match heading_of(lines[pos]) {
        Some(name) => name,
        None => Seq::empty(),
    }
}

/// The parts that the first `end` lines put into the catalog, before any
/// is promoted to a session: for each name the first part that the text
/// defines under it, in the order of the text.
pub open spec fn kept_upto(lines: Seq<Seq<char>>, end: int) -> Seq<Part>
    decreases end,
{
    if end <= 0 || end > lines.len() {
        Seq::empty()
    } else {
        let before = kept_upto(lines, end - 1);
        match reading_at(lines, end - 1) {
            Some(Ok(part)) => if is_part_name(before, part.name) {
                before
            } else {
                before.push(part)
            },
            _ => before,
        }
    }
}

/// The parts of the first `end` lines that make no tile, in the order of
/// the text: those whose body defines nothing, and those whose name an
/// earlier part of the catalog has already.
pub open spec fn dropped_upto(lines: Seq<Seq<char>>, end: int) -> Seq<Dropped>
    decreases end,
{
    if end <= 0 || end > lines.len() {
        Seq::empty()
    } else {
        let before = dropped_upto(lines, end - 1);
        match reading_at(lines, end - 1) {
            Some(Ok(part)) => if is_part_name(kept_upto(lines, end - 1), part.name) {
                before.push(Dropped { name: part.name, cause: DropCause::DuplicateName })
            } else {
                before
            },
            Some(Err(cause)) => before.push(Dropped { name: name_at(lines, end - 1), cause }),
            None => before,
        }
    }
}

/// The parts of a markdown text that make no tile.
pub open spec fn dropped_of(input: Seq<char>) -> Seq<Dropped> {
    dropped_upto(lines_of(input), lines_of(input).len() as int)
}

/// Whether no two parts have the same name.
pub open spec fn names_distinct(parts: Seq<Part>) -> bool {
    forall|i: int, j: int|
        0 <= i < j < parts.len() ==> (#[trigger] parts[i]).name != (#[trigger] parts[j]).name
}

/// Whether some agent has the given name.
pub open spec fn is_agent_name(parts: Seq<Part>, name: Seq<char>) -> bool {
    exists|i: int|
        0 <= i < parts.len() && (#[trigger] parts[i]).name == name && parts[i].kind
            == TileKind::Agent
}

/// Whether a layout refers to a part: some leaf of it, anywhere, names a
/// part that is no agent.
pub open spec fn refers_to_parts(tree: LayoutTree, parts: Seq<Part>) -> bool
    decreases tree,
{
    match tree {
        LayoutTree::Pane { agent } => is_part_name(parts, agent) && !is_agent_name(parts, agent),
        LayoutTree::Row { children } => exists|i: int|
            0 <= i < children.len() && refers_to_parts((#[trigger] children[i]).node, parts),
        LayoutTree::Col { children } => exists|i: int|
            0 <= i < children.len() && refers_to_parts((#[trigger] children[i]).node, parts),
    }
}

/// The part as it stands in the catalog: a composition that refers to parts
/// is a session.
pub open spec fn classified(part: Part, parts: Seq<Part>) -> Part {
    if part.kind == TileKind::Composition && part.layout is Some && refers_to_parts(
        part.layout->0,
        parts,
    ) {
        Part { kind: TileKind::Session, ..part }
    } else {
        part
    }
}

/// The catalog that a markdown text defines: for each name the first part
/// that the text defines under it, with the compositions that refer to
/// other parts of the catalog marked as sessions.
pub open spec fn registry_of(input: Seq<char>) -> Seq<Part> {
    let parts = kept_upto(lines_of(input), lines_of(input).len() as int);
    Seq::new(parts.len(), |i: int| classified(parts[i], parts))
}

/// The parts that the first `end` lines put into the catalog have names
/// that are pairwise distinct.
pub proof fn lemma_kept_names_distinct(lines: Seq<Seq<char>>, end: int)
    ensures
        names_distinct(kept_upto(lines, end)),
    decreases end,
{
    if 0 < end <= lines.len() {
        lemma_kept_names_distinct(lines, end - 1);
    }
}

/// No two parts of the catalog that a markdown text defines have the same
/// name: a name identifies at most one part.
pub proof fn lemma_registry_names_distinct(input: Seq<char>)
    ensures
        names_distinct(registry_of(input)),
{
    lemma_kept_names_distinct(lines_of(input), lines_of(input).len() as int);
}

/// The name of the part that a line starts, if it starts one.
fn heading_name(line: &[char]) -> (name: Option<Vec<char>>)
    ensures
        match name {
            Some(n) => heading_of(line@) == Some(n@),
            None => heading_of(line@) is None,
        },
{
    let mark = chars_of("## ");
    if has_prefix(line, mark.as_slice()) {
        let rest = copy_range(line, mark.len(), line.len());
        assert(rest@ =~= line@.skip("## "@.len() as int));
        Some(trim(rest.as_slice()))
    } else {
        None
    }
}

fn is_heading(line: &[char]) -> (yes: bool)
    ensures
        yes == heading_of(line@) is Some,
{
    let mark = chars_of("## ");
    has_prefix(line, mark.as_slice())
}

fn is_skipped(line: &[char]) -> (yes: bool)
    ensures
        yes == is_other_heading(line@),
{
    let first = chars_of("# ");
    let third = chars_of("### ");
    has_prefix(line, first.as_slice()) || has_prefix(line, third.as_slice())
}

/// The body that begins at line `from`.
fn collect_body(all: &Vec<Vec<char>>, from: usize) -> (body: Vec<Vec<char>>)
    requires
        from <= all.len(),
    ensures
        texts_of(body@) == body_from(texts_of(all@), from as int),
{
    let ghost text_lines = texts_of(all@);
    let mut body: Vec<Vec<char>> = Vec::new();
    let mut i: usize = from;
    assert(texts_of(body@) + body_from(text_lines, from as int) =~= body_from(
        text_lines,
        from as int,
    ));
    while i < all.len() && !is_heading(all[i].as_slice())
        invariant
            from <= i <= all.len(),
            text_lines == texts_of(all@),
            body_from(text_lines, from as int) == texts_of(body@) + body_from(
                text_lines,
                i as int,
            ),
        decreases all.len() - i,
    {
        let ghost before = texts_of(body@);
        assert(text_lines[i as int] == all@[i as int]@);
        if !is_skipped(all[i].as_slice()) {
            let line = copy_range(all[i].as_slice(), 0, all[i].len());
            assert(line@ =~= all@[i as int]@);
            body.push(line);
            assert(texts_of(body@) =~= before + seq![text_lines[i as int]]);
            assert(before + (seq![text_lines[i as int]] + body_from(text_lines, i + 1)) =~= texts_of(
                body@,
            ) + body_from(text_lines, i + 1));
        }
        i += 1;
    }
    proof {
        if i < all.len() {
            assert(text_lines[i as int] == all@[i as int]@);
        }
        assert(texts_of(body@) + Seq::<Seq<char>>::empty() =~= texts_of(body@));
    }
    body
}

/// Reads the body of a part.
fn parse_part_body(name: &[char], body: &Vec<Vec<char>>) -> (tile: Result<Tile, DropReason>)
    ensures
        match tile {
            Ok(t) => reading_of(name@, texts_of(body@)) == Ok::<Part, DropCause>(t@),
            Err(reason) => reading_of(name@, texts_of(body@)) == Err::<Part, DropCause>(reason@),
        },
{
    let ghost text_lines = texts_of(body@);
    let ghost role_test = |line: Seq<char>| is_role_line(line);
    let ghost text_test = |line: Seq<char>| has_text(line);
    let mark = chars_of("role:");
    let mut i: usize = 0;
    while i < body.len()
        invariant
            i <= body.len(),
            text_lines == texts_of(body@),
            mark@ == "role:"@,
            role_test == |line: Seq<char>| is_role_line(line),
            first_from(text_lines, 0, role_test) == first_from(text_lines, i as int, role_test),
        decreases body.len() - i,
    {
        assert(text_lines[i as int] == body@[i as int]@);
        let line = trim(body[i].as_slice());
        if has_prefix(line.as_slice(), mark.as_slice()) {
            let rest = copy_range(line.as_slice(), mark.len(), line.len());
            assert(rest@ =~= line@.skip("role:"@.len() as int));
            let role = trim(rest.as_slice());
            return Ok(
                Tile {
                    name: string_of(name),
                    kind: TileKind::Agent,
                    role: Some(string_of(role.as_slice())),
                    layout: None,
                },
            );
        }
        i += 1;
    }
    let mut j: usize = 0;
    while j < body.len()
        invariant
            j <= body.len(),
            text_lines == texts_of(body@),
            role_test == |line: Seq<char>| is_role_line(line),
            text_test == |line: Seq<char>| has_text(line),
            first_from(text_lines, 0, role_test) == body.len(),
            first_from(text_lines, 0, text_test) == first_from(text_lines, j as int, text_test),
        decreases body.len() - j,
    {
        assert(text_lines[j as int] == body@[j as int]@);
        let line = trim(body[j].as_slice());
        if line.len() > 0 {
            if match_keyword(line.as_slice(), 0).is_none() {
                return Err(DropReason::NotAPart);
            }
            return match parse_chars(line.as_slice()) {
                Ok(layout) => Ok(
                    Tile {
                        name: string_of(name),
                        kind: TileKind::Composition,
                        role: None,
                        layout: Some(layout),
                    },
                ),
                Err(error) => Err(DropReason::BadLayout(error)),
            };
        }
        j += 1;
    }
    Err(DropReason::Blank)
}

/// Reads the parts that a text puts into the catalog, before any is
/// promoted to a session, and lists those that make no tile.
fn ingest(input: &str) -> (read: (Vec<Tile>, Vec<DroppedPart>))
    ensures
        parts_of(read.0@) == kept_upto(lines_of(input@), lines_of(input@).len() as int),
        dropped_view(read.1@) == dropped_of(input@),
{
    let chars = chars_of(input);
    let all = lines(chars.as_slice());
    let ghost text_lines = lines_of(input@);
    assert(texts_of(all@) =~= text_lines);
    let mut tiles: Vec<Tile> = Vec::new();
    let mut dropped: Vec<DroppedPart> = Vec::new();
    let mut i: usize = 0;
    assert(parts_of(tiles@) =~= kept_upto(text_lines, 0));
    assert(dropped_view(dropped@) =~= dropped_upto(text_lines, 0));
    while i < all.len()
        invariant
            i <= all.len(),
            text_lines == texts_of(all@),
            parts_of(tiles@) == kept_upto(text_lines, i as int),
            dropped_view(dropped@) == dropped_upto(text_lines, i as int),
        decreases all.len() - i,
    {
        let ghost before = parts_of(tiles@);
        let ghost gone = dropped_view(dropped@);
        assert(text_lines[i as int] == all@[i as int]@);
        match heading_name(all[i].as_slice()) {
            Some(name) => {
                let body = collect_body(&all, i + 1);
                match parse_part_body(name.as_slice(), &body) {
                    Ok(tile) => {
                        if name_known(&tiles, &tile.name) {
                            let record = DroppedPart {
                                name: string_of(name.as_slice()),
                                reason: DropReason::DuplicateName,
                            };
                            dropped.push(record);
                            assert(dropped_view(dropped@) =~= gone.push(
                                Dropped { name: name@, cause: DropCause::DuplicateName },
                            ));
                        } else {
                            let ghost found = tile@;
                            tiles.push(tile);
                            assert(parts_of(tiles@) =~= before.push(found));
                        }
                    },
                    Err(reason) => {
                        let record = DroppedPart { name: string_of(name.as_slice()), reason };
                        let ghost lost = record@;
                        dropped.push(record);
                        assert(dropped_view(dropped@) =~= gone.push(lost));
                    },
                }
            },
            None => {},
        }
        i += 1;
    }
    (tiles, dropped)
}

/// Whether some tile has the given name.
fn name_known(tiles: &Vec<Tile>, name: &String) -> (yes: bool)
    ensures
        yes == is_part_name(parts_of(tiles@), name@),
{
    let mut i: usize = 0;
    while i < tiles.len()
        invariant
            i <= tiles.len(),
            forall|j: int| 0 <= j < i ==> (#[trigger] parts_of(tiles@)[j]).name != name@,
        decreases tiles.len() - i,
    {
        if tiles[i].name == *name {
            assert(parts_of(tiles@)[i as int].name == name@);
            return true;
        }
        i += 1;
    }
    false
}

/// Whether some agent among the tiles has the given name.
fn agent_known(tiles: &Vec<Tile>, name: &String) -> (yes: bool)
    ensures
        yes == is_agent_name(parts_of(tiles@), name@),
{
    let mut i: usize = 0;
    while i < tiles.len()
        invariant
            i <= tiles.len(),
            forall|j: int|
                0 <= j < i ==> !((#[trigger] parts_of(tiles@)[j]).name == name@ && parts_of(
                    tiles@,
                )[j].kind == TileKind::Agent),
        decreases tiles.len() - i,
    {
        if tiles[i].kind == TileKind::Agent && tiles[i].name == *name {
            assert(parts_of(tiles@)[i as int].name == name@);
            return true;
        }
        i += 1;
    }
    false
}

/// Whether some leaf of the entries names a part that is no agent.
fn entries_refer(entries: &Vec<LayoutEntry>, tiles: &Vec<Tile>) -> (yes: bool)
    ensures
        yes == exists|i: int|
            0 <= i < entries.len() && refers_to_parts(
                (#[trigger] slots_of(entries@)[i]).node,
                parts_of(tiles@),
            ),
    decreases entries,
{
    let mut i: usize = 0;
    while i < entries.len()
        invariant
            i <= entries.len(),
            forall|j: int|
                0 <= j < i ==> !refers_to_parts(
                    (#[trigger] slots_of(entries@)[j]).node,
                    parts_of(tiles@),
                ),
        decreases entries.len() - i,
    {
        if layout_references_parts(&entries[i].node, tiles) {
            assert(refers_to_parts(slots_of(entries@)[i as int].node, parts_of(tiles@)));
            return true;
        }
        i += 1;
    }
    false
}

/// Whether a layout refers to a part: a leaf of it names a part that is no
/// agent.
fn layout_references_parts(node: &LayoutNode, tiles: &Vec<Tile>) -> (yes: bool)
    ensures
        yes == refers_to_parts(node@, parts_of(tiles@)),
    decreases node,
{
    proof {
        lemma_children_view(*node);
    }
    match node {
        LayoutNode::Pane { agent } => name_known(tiles, agent) && !agent_known(tiles, agent),
        LayoutNode::Row { children } => entries_refer(children, tiles),
        LayoutNode::Col { children } => entries_refer(children, tiles),
    }
}

/// The position of the first part with the given name; the number of parts
/// where there is none.
pub open spec fn part_position(parts: Seq<Part>, name: Seq<char>) -> int {
    first_from(parts, 0, |part: Part| part.name == name)
}

/// The part with the given name that was defined first, if there is one.
pub open spec fn part_named(parts: Seq<Part>, name: Seq<char>) -> Option<Part> {
    if part_position(parts, name) < parts.len() {
        Some(parts[part_position(parts, name)])
    } else {
        None
    }
}

/// Why a part cannot be expanded.
#[derive(Clone, Copy, Debug, PartialEq, Eq, Structural)]
pub enum ExpandError {
    /// No part has the name.
    UnknownPart,
    /// The part is a composition or a session without a layout.
    NoLayout,
    /// The part refers to itself, directly or through other parts.
    Cycle,
}

/// The layout with every reference replaced by the expansion of the part it
/// names, or nothing where that would never end.
///
/// A leaf is a reference where the first part of its name has a layout.
/// Where that part is marked as an agent the leaf stays; otherwise the
/// expansion of its layout takes the place of the leaf. `visiting` holds the
/// names of the parts that are being expanded around this layout: a
/// reference to one of them closes a cycle. A chain of references that is
/// longer than the catalog must repeat a name, so it fails as well.
pub open spec fn expansion(parts: Seq<Part>, tree: LayoutTree, visiting: Seq<Seq<char>>) -> Option<
    LayoutTree,
>
    decreases parts.len() - visiting.len(), tree,
{
    match tree {
        LayoutTree::Pane { agent } => match part_named(parts, agent) {
            Some(part) => if part.layout is Some && part.kind != TileKind::Agent {
                if visiting.contains(agent) || visiting.len() >= parts.len() {
                    None
                } else {
                    expansion(parts, part.layout->0, visiting.push(agent))
                }
            } else {
                Some(tree)
            },
            None => Some(tree),
        },
        LayoutTree::Row { children } => if forall|i: int|
            0 <= i < children.len() ==> expansion(parts, (#[trigger] children[i]).node, visiting)
                is Some {
            Some(
                LayoutTree::Row {
                    children: Seq::new(
                        children.len(),
                        |i: int|
                            if 0 <= i < children.len() {
                                LayoutSlot {
                                    node: expansion(parts, children[i].node, visiting)->0,
                                    percent: children[i].percent,
                                }
                            } else {
                                arbitrary()
                            },
                    ),
                },
            )
        } else {
            None
        },
        LayoutTree::Col { children } => if forall|i: int|
            0 <= i < children.len() ==> expansion(parts, (#[trigger] children[i]).node, visiting)
                is Some {
            Some(
                LayoutTree::Col {
                    children: Seq::new(
                        children.len(),
                        |i: int|
                            if 0 <= i < children.len() {
                                LayoutSlot {
                                    node: expansion(parts, children[i].node, visiting)->0,
                                    percent: children[i].percent,
                                }
                            } else {
                                arbitrary()
                            },
                    ),
                },
            )
        } else {
            None
        },
    }
}

/// What a name expands to: an agent to its pane, a composition or a session
/// to its layout with every reference expanded.
pub open spec fn expansion_of(parts: Seq<Part>, name: Seq<char>) -> Result<LayoutTree, ExpandError> {
    match part_named(parts, name) {
        None => Err(ExpandError::UnknownPart),
        Some(part) => if part.kind == TileKind::Agent {
            Ok(LayoutTree::Pane { agent: name })
        } else {
            match part.layout {
                None => Err(ExpandError::NoLayout),
                Some(layout) => match expansion(parts, layout, seq![name]) {
                    Some(tree) => Ok(tree),
                    None => Err(ExpandError::Cycle),
                },
            }
        },
    }
}

fn is_visiting(visiting: &Vec<String>, name: &String) -> (yes: bool)
    ensures
        yes == strings_of(visiting@).contains(name@),
{
    let mut i: usize = 0;
    while i < visiting.len()
        invariant
            i <= visiting.len(),
            forall|j: int| 0 <= j < i ==> strings_of(visiting@)[j] != name@,
        decreases visiting.len() - i,
    {
        if visiting[i] == *name {
            assert(strings_of(visiting@)[i as int] == name@);
            return true;
        }
        i += 1;
    }
    false
}

impl PartRegistry {
    /// Reads a catalog from markdown text and tells which parts of the text
    /// were dropped, and why.
    ///
    /// The catalog holds, for each name, the first part that the text
    /// defines under it as an agent or a composition, in the order of the
    /// text, and marks as sessions the compositions that refer to other
    /// parts. No two tiles have the same name. The report names each part
    /// that makes no tile, in the order of the text: those whose body
    /// defines nothing, and those whose name an earlier part has already.
    pub fn from_markdown_with_report(input: &str) -> (read: (PartRegistry, Vec<DroppedPart>))
        ensures
            read.0@ == registry_of(input@),
            names_distinct(read.0@),
            dropped_view(read.1@) == dropped_of(input@),
    {
        proof {
            lemma_registry_names_distinct(input@);
        }
        let (read, dropped) = ingest(input);
        let ghost raw = parts_of(read@);
        let mut parts: Vec<Tile> = Vec::new();
        let mut i: usize = 0;
        while i < read.len()
            invariant
                i <= read.len(),
                raw == parts_of(read@),
                parts.len() == i,
                forall|j: int| 0 <= j < i ==> (#[trigger] parts@[j])@ == classified(raw[j], raw),
            decreases read.len() - i,
        {
            let tile = &read[i];
            let promoted = tile.kind == TileKind::Composition && match &tile.layout {
                Some(layout) => layout_references_parts(layout, &read),
                None => false,
            };
            let mut copy = tile.clone();
            if promoted {
                copy.kind = TileKind::Session;
            }
            assert(copy@ == classified(raw[i as int], raw));
            parts.push(copy);
            i += 1;
        }
        let registry = PartRegistry { parts };
        assert(registry@ =~= registry_of(input@));
        (registry, dropped)
    }

    /// Reads a catalog from markdown text.
    ///
    /// Bodies that define nothing are passed over without a word, and so
    /// are parts whose name an earlier part has already: the result holds,
    /// for each name, the first part that the text defines under it as an
    /// agent or a composition, in the order of the text, and marks as
    /// sessions the compositions that refer to other parts. No two tiles
    /// have the same name.
    pub fn from_markdown(input: &str) -> (registry: PartRegistry)
        ensures
            registry@ == registry_of(input@),
            names_distinct(registry@),
    {
        let (registry, _) = PartRegistry::from_markdown_with_report(input);
        registry
    }

    /// The part with the given name that was defined first.
    pub fn get(&self, name: &str) -> (tile: Option<&Tile>)
        ensures
            match tile {
                Some(t) => part_named(self@, name@) == Some(t@) && part_position(self@, name@)
                    < self.parts.len() && *t == self.parts[part_position(self@, name@)],
                None => part_named(self@, name@) is None,
            },
    {
        let wanted = name.to_owned();
        let ghost test = |part: Part| part.name == name@;
        let mut i: usize = 0;
        while i < self.parts.len()
            invariant
                i <= self.parts.len(),
                wanted@ == name@,
                test == |part: Part| part.name == name@,
                first_from(self@, 0, test) == first_from(self@, i as int, test),
            decreases self.parts.len() - i,
        {
            assert(self@[i as int] == self.parts@[i as int]@);
            if self.parts[i].name == wanted {
                return Some(&self.parts[i]);
            }
            i += 1;
        }
        None
    }

    /// The parts of the given kind, in the order of the catalog.
    pub fn by_kind(&self, kind: TileKind) -> (found: Vec<&Tile>)
        ensures
            parts_found(found@) == self@.filter(
                |part: Part| part.kind == kind,
            ),
    {
        let ghost test = |part: Part| part.kind == kind;
        let mut found: Vec<&Tile> = Vec::new();
        let mut i: usize = 0;
        proof {
            reveal(Seq::filter);
            assert(parts_found(found@) =~= self@.take(0).filter(
                test,
            ));
        }
        while i < self.parts.len()
            invariant
                i <= self.parts.len(),
                test == |part: Part| part.kind == kind,
                parts_found(found@) == self@.take(i as int).filter(
                    test,
                ),
            decreases self.parts.len() - i,
        {
            proof {
                reveal(Seq::filter);
                assert(self@.take(i + 1).drop_last() =~= self@.take(i as int));
                assert(self@.take(i + 1).last() == self.parts@[i as int]@);
            }
            let ghost before = parts_found(found@);
            if self.parts[i].kind == kind {
                found.push(&self.parts[i]);
                assert(parts_found(found@) =~= before.push(
                    self.parts@[i as int]@,
                ));
            }
            i += 1;
        }
        assert(self@.take(self.parts.len() as int) =~= self@);
        found
    }

    /// The entries with every reference expanded.
    fn expand_entries(&self, entries: &Vec<LayoutEntry>, visiting: &mut Vec<String>) -> (expanded:
        Option<Vec<LayoutEntry>>)
        ensures
            final(visiting)@ == old(visiting)@,
            match expanded {
                Some(list) => {
                    &&& list.len() == entries.len()
                    &&& forall|i: int|
                        0 <= i < entries.len() ==> {
                            &&& expansion(
                                self@,
                                (#[trigger] slots_of(entries@)[i]).node,
                                strings_of(old(visiting)@),
                            ) == Some(list@[i].node@)
                            &&& list@[i].percent == entries@[i].percent
                        }
                },
                None => exists|i: int|
                    0 <= i < entries.len() && expansion(
                        self@,
                        (#[trigger] slots_of(entries@)[i]).node,
                        strings_of(old(visiting)@),
                    ) is None,
            },
        decreases self.parts.len() - old(visiting).len(), entries,
    {
        let mut list: Vec<LayoutEntry> = Vec::new();
        let mut i: usize = 0;
        while i < entries.len()
            invariant
                i <= entries.len(),
                visiting@ == old(visiting)@,
                list.len() == i,
                forall|j: int|
                    0 <= j < i ==> {
                        &&& expansion(
                            self@,
                            (#[trigger] slots_of(entries@)[j]).node,
                            strings_of(old(visiting)@),
                        ) == Some(list@[j].node@)
                        &&& list@[j].percent == entries@[j].percent
                    },
            decreases entries.len() - i,
        {
            match self.expand_node(&entries[i].node, visiting) {
                Some(node) => {
                    list.push(LayoutEntry { node, percent: entries[i].percent });
                },
                None => {
                    assert(expansion(
                        self@,
                        slots_of(entries@)[i as int].node,
                        strings_of(old(visiting)@),
                    ) is None);
                    return None;
                },
            }
            i += 1;
        }
        Some(list)
    }

    /// The layout with every reference expanded, or nothing where a
    /// reference closes a cycle.
    fn expand_node(&self, node: &LayoutNode, visiting: &mut Vec<String>) -> (expanded: Option<
        LayoutNode,
    >)
        ensures
            final(visiting)@ == old(visiting)@,
            match expanded {
                Some(tree) => expansion(self@, node@, strings_of(old(visiting)@)) == Some(tree@),
                None => expansion(self@, node@, strings_of(old(visiting)@)) is None,
            },
        decreases self.parts.len() - old(visiting).len(), node,
    {
        proof {
            lemma_children_view(*node);
        }
        let ghost path = strings_of(visiting@);
        match node {
            LayoutNode::Pane { agent } => {
                match self.get(agent.as_str()) {
                    Some(tile) => {
                        match &tile.layout {
                            Some(layout) => {
                                if tile.kind == TileKind::Agent {
                                    return Some(node.clone());
                                }
                                if is_visiting(visiting, agent) || visiting.len()
                                    >= self.parts.len() {
                                    return None;
                                }
                                visiting.push(agent.clone());
                                assert(strings_of(visiting@) =~= path.push(agent@));
                                let expanded = self.expand_node(layout, visiting);
                                visiting.pop();
                                assert(visiting@ =~= old(visiting)@);
                                expanded
                            },
                            None => Some(node.clone()),
                        }
                    },
                    None => Some(node.clone()),
                }
            },
            LayoutNode::Row { children } => {
                match self.expand_entries(children, visiting) {
                    Some(list) => {
                        let tree = LayoutNode::Row { children: list };
                        proof {
                            lemma_children_view(tree);
                            assert(slots_of(list@) =~= expansion(self@, node@, path)->0->Row_children);
                        }
                        Some(tree)
                    },
                    None => None,
                }
            },
            LayoutNode::Col { children } => {
                match self.expand_entries(children, visiting) {
                    Some(list) => {
                        let tree = LayoutNode::Col { children: list };
                        proof {
                            lemma_children_view(tree);
                            assert(slots_of(list@) =~= expansion(self@, node@, path)->0->Col_children);
                        }
                        Some(tree)
                    },
                    None => None,
                }
            },
        }
    }

    /// Expands a part into a layout without references, and says why where
    /// that cannot be done.
    ///
    /// An agent gives its pane. A composition or a session gives its layout
    /// with every leaf that names a part with a layout replaced by the
    /// expansion of that part; leaves that name an agent or nothing known
    /// stay. A part that refers to itself, directly or through others, has
    /// no expansion.
    pub fn expand_checked(&self, name: &str) -> (outcome: Result<LayoutNode, ExpandError>)
        ensures
            match outcome {
                Ok(tree) => expansion_of(self@, name@) == Ok::<LayoutTree, ExpandError>(tree@),
                Err(error) => expansion_of(self@, name@) == Err::<LayoutTree, ExpandError>(error),
            },
    {
        let tile = match self.get(name) {
            Some(tile) => tile,
            None => {
                return Err(ExpandError::UnknownPart);
            },
        };
        if tile.kind == TileKind::Agent {
            return Ok(LayoutNode::Pane { agent: name.to_owned() });
        }
        let layout = match &tile.layout {
            Some(layout) => layout,
            None => {
                return Err(ExpandError::NoLayout);
            },
        };
        let mut visiting: Vec<String> = Vec::new();
        visiting.push(name.to_owned());
        assert(strings_of(visiting@) =~= seq![name@]);
        match self.expand_node(layout, &mut visiting) {
            Some(tree) => Ok(tree),
            None => Err(ExpandError::Cycle),
        }
    }

    /// Expands a part into a layout without references; nothing where the
    /// name is unknown, the part has no layout, or it refers to itself.
    pub fn expand(&self, name: &str) -> (tree: Option<LayoutNode>)
        ensures
            match tree {
                Some(t) => expansion_of(self@, name@) == Ok::<LayoutTree, ExpandError>(t@),
                None => expansion_of(self@, name@) is Err,
            },
    {
        match self.expand_checked(name) {
            Ok(tree) => Some(tree),
            Err(_) => None,
        }
    }
}

/// The JSON string literal that stands for a text: the result of
/// `serde_json::to_string` on it.
pub uninterp spec fn json_string(text: Seq<char>) -> Seq<char>;

/// `serde_json::to_string` on a string slice: the text between double quotes
/// with the characters that JSON cannot hold as they are written as escapes.
/// The result depends on the text alone. The call fails only where a value
/// refuses to be serialized or a map has a key that is no string; a string
/// slice does neither, so the fallback is never taken.
#[verifier::external_body]
pub(crate) fn json_quote(text: &str) -> (quoted: String)
    ensures
        quoted@ == json_string(text@),
{
    serde_json::to_string(text).unwrap_or_default()
}

/// The JSON object that sums up one part: its name, and for an agent its
/// role, `null` where it has none.
pub open spec fn part_json(part: Part, with_role: bool) -> Seq<char> {
    if with_role {
        "{\"name\":"@ + json_string(part.name) + ",\"role\":"@ + (match part.role {
            Some(role) => json_string(role),
            None => "null"@,
        }) + "}"@
    } else {
        "{\"name\":"@ + json_string(part.name) + "}"@
    }
}

/// The JSON objects of the parts, separated by commas.
pub open spec fn parts_json(parts: Seq<Part>, with_role: bool) -> Seq<char>
    decreases parts.len(),
{
    if parts.len() == 0 {
        Seq::empty()
    } else if parts.len() == 1 {
        part_json(parts[0], with_role)
    } else {
        parts_json(parts.drop_last(), with_role) + ","@ + part_json(parts.last(), with_role)
    }
}

/// The parts of one kind, in the order of the catalog.
pub open spec fn of_kind(parts: Seq<Part>, kind: TileKind) -> Seq<Part> {
    parts.filter(|part: Part| part.kind == kind)
}

/// The summary of a catalog as JSON text: the agents with name and role, the
/// compositions and the sessions with their names.
pub open spec fn summary_json(parts: Seq<Part>) -> Seq<char> {
    "{\"agents\":["@ + parts_json(of_kind(parts, TileKind::Agent), true)
        + "],\"compositions\":["@ + parts_json(of_kind(parts, TileKind::Composition), false)
        + "],\"sessions\":["@ + parts_json(of_kind(parts, TileKind::Session), false) + "]}"@
}

impl PartRegistry {
    /// Appends the JSON objects of the parts of one kind.
    fn write_kind(&self, out: &mut Vec<char>, kind: TileKind, with_role: bool)
        ensures
            final(out)@ == old(out)@ + parts_json(of_kind(self@, kind), with_role),
    {
        let found = self.by_kind(kind);
        let ghost list = of_kind(self@, kind);
        let ghost before = out@;
        let mut i: usize = 0;
        assert(out@ =~= before + parts_json(list.take(0), with_role));
        while i < found.len()
            invariant
                i <= found.len(),
                list == parts_found(found@),
                out@ == before + parts_json(list.take(i as int), with_role),
            decreases found.len() - i,
        {
            let ghost start = out@;
            let ghost done = list.take(i as int);
            let ghost next = list.take(i + 1);
            proof {
                assert(next.drop_last() =~= done);
                assert(next.last() == found@[i as int]@);
                if i > 0 {
                    assert(next.len() > 1);
                }
            }
            if i > 0 {
                push_str(out, ",");
            }
            push_str(out, "{\"name\":");
            let name = json_quote(found[i].name.as_str());
            push_str(out, name.as_str());
            if with_role {
                push_str(out, ",\"role\":");
                match &found[i].role {
                    Some(role) => {
                        let quoted = json_quote(role.as_str());
                        push_str(out, quoted.as_str());
                    },
                    None => {
                        push_str(out, "null");
                    },
                }
            }
            push_str(out, "}");
            assert(out@ =~= start + (if i > 0 {
                ","@
            } else {
                Seq::<char>::empty()
            }) + part_json(found@[i as int]@, with_role));
            assert(out@ =~= before + parts_json(next, with_role));
            i += 1;
        }
        assert(list.take(found.len() as int) =~= list);
    }

    /// The summary of the catalog as JSON text, for display: the names and
    /// roles of the agents, and the names of the compositions and sessions.
    pub fn to_json(&self) -> (text: String)
        ensures
            text@ == summary_json(self@),
    {
        let mut out: Vec<char> = Vec::new();
        push_str(&mut out, "{\"agents\":[");
        self.write_kind(&mut out, TileKind::Agent, true);
        push_str(&mut out, "],\"compositions\":[");
        self.write_kind(&mut out, TileKind::Composition, false);
        push_str(&mut out, "],\"sessions\":[");
        self.write_kind(&mut out, TileKind::Session, false);
        push_str(&mut out, "]}");
        assert(out@ =~= summary_json(self@));
        string_of(out.as_slice())
    }
}

/// How many of the first `end` lines start a part.
pub open spec fn headings_upto(lines: Seq<Seq<char>>, end: int) -> nat
    decreases end,
{
    if end <= 0 || end > lines.len() {
        0
    } else if heading_of(lines[end - 1]) is Some {
        headings_upto(lines, end - 1) + 1
    } else {
        headings_upto(lines, end - 1)
    }
}

/// How many lines of a markdown text start a part.
pub open spec fn headings_of(input: Seq<char>) -> nat {
    headings_upto(lines_of(input), lines_of(input).len() as int)
}

/// Every part of the text is either in the catalog or reported as dropped,
/// be it for its body or for its name: the tiles and the dropped parts are
/// together as many as the headings of the second level.
pub proof fn lemma_every_part_accounted(input: Seq<char>)
    ensures
        registry_of(input).len() + dropped_of(input).len() == headings_of(input),
{
    lemma_parts_accounted_upto(lines_of(input), lines_of(input).len() as int);
}

proof fn lemma_parts_accounted_upto(lines: Seq<Seq<char>>, end: int)
    ensures
        kept_upto(lines, end).len() + dropped_upto(lines, end).len() == headings_upto(lines, end),
    decreases end,
{
    if 0 < end <= lines.len() {
        lemma_parts_accounted_upto(lines, end - 1);
    }
}

/// The names of the parts, in the order of the catalog.
pub open spec fn part_names(parts: Seq<Part>) -> Seq<Seq<char>> {
    Seq::new(parts.len(), |i: int| parts[i].name)
}

/// A chain of distinct names of parts that another name of a part can
/// follow is shorter than the catalog. The chain of parts under expansion
/// is such a chain, so `expansion` gives up only where a name repeats.
pub proof fn lemma_chain_fits(parts: Seq<Part>, visiting: Seq<Seq<char>>, name: Seq<char>)
    requires
        visiting.no_duplicates(),
        forall|i: int| 0 <= i < visiting.len() ==> is_part_name(parts, #[trigger] visiting[i]),
        is_part_name(parts, name),
        !visiting.contains(name),
    ensures
        visiting.len() < parts.len(),
{
    let names = part_names(parts);
    let known = names.to_set();
    let chain = visiting.to_set();
    vstd::seq_lib::seq_to_set_is_finite(names);
    vstd::seq_lib::seq_to_set_is_finite(visiting);
    names.lemma_cardinality_of_set();
    visiting.unique_seq_to_set();
    assert forall|n: Seq<char>| is_part_name(parts, n) implies known.contains(n) by {
        let i = choose|i: int| 0 <= i < parts.len() && (#[trigger] parts[i]).name == n;
        assert(names[i] == n);
    }
    assert(chain.subset_of(known)) by {
        assert forall|n: Seq<char>| chain.contains(n) implies known.contains(n) by {
            let i = choose|i: int| 0 <= i < visiting.len() && visiting[i] == n;
            assert(is_part_name(parts, visiting[i]));
        }
    }
    vstd::set_lib::lemma_len_subset(chain, known);
    if visiting.len() >= parts.len() {
        vstd::set_lib::lemma_subset_equality(chain, known);
        assert(known.contains(name));
        assert(chain.contains(name));
    }
}

/// Whether the chain of parts under expansion is in order: its names are
/// names of parts, and none occurs twice.
pub open spec fn chain_in_order(parts: Seq<Part>, visiting: Seq<Seq<char>>) -> bool {
    &&& visiting.no_duplicates()
    &&& forall|i: int| 0 <= i < visiting.len() ==> is_part_name(parts, #[trigger] visiting[i])
}

/// Whether a leaf of the given name is a reference: the first part of that
/// name has a layout and is not marked as an agent.
pub open spec fn is_reference(parts: Seq<Part>, name: Seq<char>) -> bool {
    part_named(parts, name) matches Some(part) && part.layout is Some && part.kind
        != TileKind::Agent
}

/// Whether the expansion of the layout closes a cycle: a reference in it, or
/// in a layout that takes the place of one of its references, names a part
/// that is already under expansion.
pub open spec fn closes_cycle(parts: Seq<Part>, tree: LayoutTree, visiting: Seq<Seq<char>>) -> bool
    decreases parts.len() - visiting.len(), tree,
{
    match tree {
        LayoutTree::Pane { agent } => if !is_reference(parts, agent) {
            false
        } else if visiting.contains(agent) {
            true
        } else if visiting.len() >= parts.len() {
            false
        } else {
            closes_cycle(parts, part_named(parts, agent)->0.layout->0, visiting.push(agent))
        },
        LayoutTree::Row { children } => exists|i: int|
            0 <= i < children.len() && closes_cycle(
                parts,
                (#[trigger] children[i]).node,
                visiting,
            ),
        LayoutTree::Col { children } => exists|i: int|
            0 <= i < children.len() && closes_cycle(
                parts,
                (#[trigger] children[i]).node,
                visiting,
            ),
    }
}

/// A name that a part is found under is the name of a part.
proof fn lemma_found_is_part_name(parts: Seq<Part>, name: Seq<char>)
    requires
        part_named(parts, name) is Some,
    ensures
        is_part_name(parts, name),
{
    let test = |part: Part| part.name == name;
    lemma_first_from(parts, 0, test);
    assert(parts[part_position(parts, name)].name == name);
}

/// A chain in order stays in order when the name of a part that is not in
/// it is added, and it was shorter than the catalog.
proof fn lemma_chain_grows(parts: Seq<Part>, visiting: Seq<Seq<char>>, name: Seq<char>)
    requires
        chain_in_order(parts, visiting),
        is_part_name(parts, name),
        !visiting.contains(name),
    ensures
        chain_in_order(parts, visiting.push(name)),
        visiting.len() < parts.len(),
{
    lemma_chain_fits(parts, visiting, name);
    let longer = visiting.push(name);
    assert forall|i: int, j: int| 0 <= i < longer.len() && 0 <= j < longer.len() && i != j implies longer[i]
        != longer[j] by {
        if i < visiting.len() {
            assert(visiting.contains(visiting[i]));
        }
        if j < visiting.len() {
            assert(visiting.contains(visiting[j]));
        }
    }
    assert forall|i: int| 0 <= i < longer.len() implies is_part_name(parts, #[trigger] longer[i]) by {
        if i < visiting.len() {
            assert(longer[i] == visiting[i]);
        }
    }
}

/// The expansion of a layout fails exactly where it closes a cycle: where
/// no reference leads back to a part that is already under expansion, the
/// layout has an expansion.
pub proof fn lemma_expansion_fails_only_on_cycle(
    parts: Seq<Part>,
    tree: LayoutTree,
    visiting: Seq<Seq<char>>,
)
    requires
        chain_in_order(parts, visiting),
    ensures
        expansion(parts, tree, visiting) is None <==> closes_cycle(parts, tree, visiting),
    decreases parts.len() - visiting.len(), tree,
{
    match tree {
        LayoutTree::Pane { agent } => {
            if is_reference(parts, agent) && !visiting.contains(agent) {
                lemma_found_is_part_name(parts, agent);
                lemma_chain_grows(parts, visiting, agent);
                lemma_expansion_fails_only_on_cycle(
                    parts,
                    part_named(parts, agent)->0.layout->0,
                    visiting.push(agent),
                );
            }
        },
        LayoutTree::Row { children } => {
            assert forall|i: int| 0 <= i < children.len() implies (expansion(
                parts,
                (#[trigger] children[i]).node,
                visiting,
            ) is None <==> closes_cycle(parts, children[i].node, visiting)) by {
                lemma_expansion_fails_only_on_cycle(parts, children[i].node, visiting);
            }
        },
        LayoutTree::Col { children } => {
            assert forall|i: int| 0 <= i < children.len() implies (expansion(
                parts,
                (#[trigger] children[i]).node,
                visiting,
            ) is None <==> closes_cycle(parts, children[i].node, visiting)) by {
                lemma_expansion_fails_only_on_cycle(parts, children[i].node, visiting);
            }
        },
    }
}

/// A name fails to expand for a cycle exactly where its part has a layout,
/// is no agent, and the expansion of that layout leads back to a part under
/// expansion, the part itself or one that it refers to. So a composition or
/// a session with a layout and without such a cycle has an expansion.
pub proof fn lemma_cycle_error_only_on_cycle(parts: Seq<Part>, name: Seq<char>)
    ensures
        expansion_of(parts, name) == Err::<LayoutTree, ExpandError>(ExpandError::Cycle)
            <==> is_reference(parts, name) && closes_cycle(
            parts,
            part_named(parts, name)->0.layout->0,
            seq![name],
        ),
{
    match part_named(parts, name) {
        Some(part) => {
            if part.kind != TileKind::Agent && part.layout is Some {
                lemma_found_is_part_name(parts, name);
                assert(chain_in_order(parts, seq![name]));
                lemma_expansion_fails_only_on_cycle(parts, part.layout->0, seq![name]);
            }
        },
        None => {},
    }
}

} // verus!
