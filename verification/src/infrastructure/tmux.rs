//! Pane listings of the multiplexer.
//!
//! A listing holds one pane per line, as six fields separated by colons:
//! the pane's id, then its index, width, height, top and left as unsigned
//! decimal numbers. Lines of any other shape are passed over.

use vstd::prelude::*;
use crate::text::{
    chars_of, lines, lines_of, parse_u32, push_str, split, split_on, string_of, strings_of,
    trim, trimmed, u32_of,
};
use crate::types::session::{geometries_of, PaneGeometry, TmuxPane};

verus! {

/// The pane that a line of a listing describes, if it describes one. The
/// agent of a pane is not part of a listing.
pub open spec fn pane_of_line(line: Seq<char>) -> Option<PaneGeometry> {
    let fields = split_on(trimmed(line), ':');
    if fields.len() == 6 && u32_of(fields[1]) is Some && u32_of(fields[2]) is Some && u32_of(
        fields[3],
    ) is Some && u32_of(fields[4]) is Some && u32_of(fields[5]) is Some {
        Some(
            PaneGeometry {
                id: fields[0],
                index: u32_of(fields[1])->0 as nat,
                width: u32_of(fields[2])->0 as nat,
                height: u32_of(fields[3])->0 as nat,
                top: u32_of(fields[4])->0 as nat,
                left: u32_of(fields[5])->0 as nat,
                agent: None,
            },
        )
    } else {
        None
    }
}

/// The panes that a listing describes, in the order of its lines.
pub open spec fn panes_of(listing: Seq<char>) -> Seq<PaneGeometry> {
    lines_of(listing).filter_map(|line: Seq<char>| pane_of_line(line))
}

/// The pane that a line describes, if it describes one.
fn parse_pane_line(line: &[char]) -> (pane: Option<TmuxPane>)
    ensures
        match pane {
            Some(p) => pane_of_line(line@) == Some(p@),
            None => pane_of_line(line@) is None,
        },
{
    let body = trim(line);
    let fields = split(body.as_slice(), ':');
    if fields.len() != 6 {
        return None;
    }
    let index = match parse_u32(fields[1].as_slice()) {
        Some(n) => n,
        None => {
            return None;
        },
    };
    let width = match parse_u32(fields[2].as_slice()) {
        Some(n) => n,
        None => {
            return None;
        },
    };
    let height = match parse_u32(fields[3].as_slice()) {
        Some(n) => n,
        None => {
            return None;
        },
    };
    let top = match parse_u32(fields[4].as_slice()) {
        Some(n) => n,
        None => {
            return None;
        },
    };
    let left = match parse_u32(fields[5].as_slice()) {
        Some(n) => n,
        None => {
            return None;
        },
    };
    Some(
        TmuxPane {
            id: string_of(fields[0].as_slice()),
            index,
            width,
            height,
            top,
            left,
            agent: None,
        },
    )
}

/// Reads a pane listing: one pane for each line that describes one, in the
/// order of the lines.
pub fn parse_list_panes(output: &str) -> (panes: Vec<TmuxPane>)
    ensures
        geometries_of(panes@) == panes_of(output@),
{
    let chars = chars_of(output);
    let all = lines(chars.as_slice());
    let ghost text_lines = lines_of(output@);
    let ghost read = |line: Seq<char>| pane_of_line(line);
    let mut panes: Vec<TmuxPane> = Vec::new();
    let mut i: usize = 0;
    assert(geometries_of(panes@) =~= text_lines.take(0).filter_map(read));
    while i < all.len()
        invariant
            i <= all.len(),
            all.len() == text_lines.len(),
            forall|j: int| 0 <= j < all.len() ==> (#[trigger] all@[j])@ == text_lines[j],
            read == |line: Seq<char>| pane_of_line(line),
            geometries_of(panes@) == text_lines.take(i as int).filter_map(read),
        decreases all.len() - i,
    {
        proof {
            assert(text_lines.take(i + 1).drop_last() =~= text_lines.take(i as int));
            assert(text_lines.take(i + 1).last() == all@[i as int]@);
        }
        let ghost before = geometries_of(panes@);
        match parse_pane_line(all[i].as_slice()) {
            Some(pane) => {
                let ghost found = pane@;
                panes.push(pane);
                assert(geometries_of(panes@) =~= before + seq![found]);
            },
            None => {},
        }
        i += 1;
    }
    assert(text_lines.take(all.len() as int) =~= text_lines);
    panes
}

/// The names that a session listing holds: its lines without the white
/// space around them, and without those that are blank.
pub open spec fn sessions_of(listing: Seq<char>) -> Seq<Seq<char>> {
    lines_of(listing).filter_map(
        |line: Seq<char>|
            if trimmed(line).len() > 0 {
                Some(trimmed(line))
            } else {
                None
            },
    )
}

/// Reads a session listing: one name per line.
pub fn parse_list_sessions(output: &str) -> (names: Vec<String>)
    ensures
        strings_of(names@) == sessions_of(output@),
{
    let chars = chars_of(output);
    let all = lines(chars.as_slice());
    let ghost text_lines = lines_of(output@);
    let ghost read = |line: Seq<char>|
        if trimmed(line).len() > 0 {
            Some(trimmed(line))
        } else {
            None
        };
    let mut names: Vec<String> = Vec::new();
    let mut i: usize = 0;
    assert(strings_of(names@) =~= text_lines.take(0).filter_map(
        read,
    ));
    while i < all.len()
        invariant
            i <= all.len(),
            all.len() == text_lines.len(),
            forall|j: int| 0 <= j < all.len() ==> (#[trigger] all@[j])@ == text_lines[j],
            read == |line: Seq<char>|
                if trimmed(line).len() > 0 {
                    Some(trimmed(line))
                } else {
                    None
                },
            strings_of(names@) == text_lines.take(i as int).filter_map(
                read,
            ),
        decreases all.len() - i,
    {
        proof {
            assert(text_lines.take(i + 1).drop_last() =~= text_lines.take(i as int));
            assert(text_lines.take(i + 1).last() == all@[i as int]@);
        }
        let ghost before = strings_of(names@);
        let name = trim(all[i].as_slice());
        if name.len() > 0 {
            names.push(string_of(name.as_slice()));
            assert(strings_of(names@) =~= before + seq![name@]);
        }
        i += 1;
    }
    assert(text_lines.take(all.len() as int) =~= text_lines);
    names
}

/// The format in which the multiplexer is asked to list panes: the six
/// fields that `parse_list_panes` reads.
pub const PANE_FORMAT: &'static str =
    "#{pane_id}:#{pane_index}:#{pane_width}:#{pane_height}:#{pane_top}:#{pane_left}";

/// The command that lists the panes of a session.
pub open spec fn list_panes_command(session: Seq<char>) -> Seq<char> {
    "tmux list-panes -t "@ + session + " -F '"@ + PANE_FORMAT@ + "'"@
}

/// The command that binds the right mouse button to the studio of `binary`.
pub open spec fn bind_mouse_hook_command(binary: Seq<char>) -> Seq<char> {
    "tmux bind -n MouseDown3Pane run-shell \""@ + binary
        + " studio --pane '#{pane_id}' --x '#{mouse_x}' --y '#{mouse_y}'\""@
}

/// Builds the command lines for the multiplexer.
#[derive(Clone, Copy, Debug)]
pub struct TmuxCommandBuilder {}

impl TmuxCommandBuilder {
    pub fn new() -> (builder: Self) {
        TmuxCommandBuilder {  }
    }

    /// The command that lists the panes of a session.
    pub fn list_panes(&self, session: &str) -> (command: String)
        ensures
            command@ == list_panes_command(session@),
    {
        let mut out: Vec<char> = Vec::new();
        push_str(&mut out, "tmux list-panes -t ");
        push_str(&mut out, session);
        push_str(&mut out, " -F '");
        push_str(&mut out, PANE_FORMAT);
        push_str(&mut out, "'");
        string_of(out.as_slice())
    }

    /// The command that binds the right mouse button to the studio.
    pub fn bind_mouse_hook(&self, binary: &str) -> (command: String)
        ensures
            command@ == bind_mouse_hook_command(binary@),
    {
        let mut out: Vec<char> = Vec::new();
        push_str(&mut out, "tmux bind -n MouseDown3Pane run-shell \"");
        push_str(&mut out, binary);
        push_str(&mut out, " studio --pane '#{pane_id}' --x '#{mouse_x}' --y '#{mouse_y}'\"");
        string_of(out.as_slice())
    }

    /// The command that takes the binding of the right mouse button away.
    pub fn unbind_mouse_hook(&self) -> (command: String)
        ensures
            command@ == "tmux unbind -n MouseDown3Pane"@,
    {
        "tmux unbind -n MouseDown3Pane".to_owned()
    }
}

} // verus!
