//! The state of the overlay window and what the multiplexer tells of the
//! pane that it is shown for.

use vstd::prelude::*;
use crate::text::{
    chars_of, first_from, i32_of, lemma_first_from, parse_i32, parse_u32, string_of, strings_of,
    u32_of, words, words_of,
};

verus! {

/// Whether the overlay is shown, and the pane that it was last shown for.
#[derive(Debug)]
pub struct OverlayState {
    pub visible: bool,
    pub target_pane: Option<String>,
}

impl OverlayState {
    /// The pane that the overlay was last shown for, as a value of the model.
    pub open spec fn target(&self) -> Option<Seq<char>> {
        match self.target_pane {
            Some(pane) => Some(pane@),
            None => None,
        }
    }

    /// A hidden overlay without a target pane.
    pub fn new() -> (state: Self)
        ensures
            !state.visible,
            state.target() is None,
    {
        OverlayState { visible: false, target_pane: None }
    }

    /// Shows the overlay for a pane.
    pub fn show(&mut self, pane_id: String)
        ensures
            final(self).visible,
            final(self).target() == Some(pane_id@),
    {
        self.target_pane = Some(pane_id);
        self.visible = true;
    }

    /// Hides the overlay; the target pane stays.
    pub fn hide_overlay(&mut self)
        ensures
            !final(self).visible,
            final(self).target() == old(self).target(),
    {
        self.visible = false;
    }

    /// The pane that the overlay was last shown for.
    pub fn get_target_pane(&self) -> (pane: Option<String>)
        ensures
            match pane {
                Some(p) => self.target() == Some(p@),
                None => self.target() is None,
            },
    {
        match &self.target_pane {
            Some(pane) => Some(pane.clone()),
            None => None,
        }
    }

    /// Whether the overlay is shown.
    pub fn is_visible(&self) -> (visible: bool)
        ensures
            visible == self.visible,
    {
        self.visible
    }

    /// Hides a shown overlay, or shows a hidden one for the given pane.
    /// Returns whether the overlay is shown afterwards.
    pub fn toggle(&mut self, pane_id: String) -> (visible: bool)
        ensures
            visible == !old(self).visible,
            final(self).visible == visible,
            final(self).target() == (if old(self).visible {
                old(self).target()
            } else {
                Some(pane_id@)
            }),
    {
        if self.is_visible() {
            self.hide_overlay();
            false
        } else {
            self.show(pane_id);
            true
        }
    }
}

/// A pane of the multiplexer: its id and its place on the character grid.
#[derive(Debug)]
pub struct TmuxPaneInfo {
    pub pane_id: String,
    pub left: u32,
    pub top: u32,
    pub width: u32,
    pub height: u32,
}

/// A pane with its place as a value of the model.
pub struct PanePlace {
    pub pane_id: Seq<char>,
    pub left: u32,
    pub top: u32,
    pub width: u32,
    pub height: u32,
}

impl View for TmuxPaneInfo {
    type V = PanePlace;

    open spec fn view(&self) -> PanePlace {
        PanePlace {
            pane_id: self.pane_id@,
            left: self.left,
            top: self.top,
            width: self.width,
            height: self.height,
        }
    }
}

impl Clone for TmuxPaneInfo {
    fn clone(&self) -> (copy: Self)
        ensures
            copy@ == self@,
    {
        TmuxPaneInfo {
            pane_id: self.pane_id.clone(),
            left: self.left,
            top: self.top,
            width: self.width,
            height: self.height,
        }
    }
}

impl PartialEq for TmuxPaneInfo {
    fn eq(&self, other: &Self) -> (same: bool) {
        self.pane_id == other.pane_id && self.left == other.left && self.top == other.top
            && self.width == other.width && self.height == other.height
    }
}

impl vstd::std_specs::cmp::PartialEqSpecImpl for TmuxPaneInfo {
    open spec fn obeys_eq_spec() -> bool {
        true
    }

    open spec fn eq_spec(&self, other: &Self) -> bool {
        self@ == other@
    }
}

/// The pane that a line of the form `<id> <left> <top> <width> <height>`
/// describes: at least five words, the second to the fifth unsigned numbers.
pub open spec fn pane_place_of(line: Seq<char>) -> Option<PanePlace> {
    let parts = words_of(line);
    if parts.len() >= 5 && u32_of(parts[1]) is Some && u32_of(parts[2]) is Some && u32_of(parts[3])
        is Some && u32_of(parts[4]) is Some {
        Some(
            PanePlace {
                pane_id: parts[0],
                left: u32_of(parts[1])->0,
                top: u32_of(parts[2])->0,
                width: u32_of(parts[3])->0,
                height: u32_of(parts[4])->0,
            },
        )
    } else {
        None
    }
}

/// Reads the id and the place of a pane from a line such as `%42 0 0 80 24`.
pub fn parse_tmux_pane_info(s: &str) -> (info: Option<TmuxPaneInfo>)
    ensures
        match info {
            Some(found) => pane_place_of(s@) == Some(found@),
            None => pane_place_of(s@) is None,
        },
{
    let chars = chars_of(s);
    let parts = words(chars.as_slice());
    if parts.len() < 5 {
        return None;
    }
    let left = match parse_u32(parts[1].as_slice()) {
        Some(n) => n,
        None => {
            return None;
        },
    };
    let top = match parse_u32(parts[2].as_slice()) {
        Some(n) => n,
        None => {
            return None;
        },
    };
    let width = match parse_u32(parts[3].as_slice()) {
        Some(n) => n,
        None => {
            return None;
        },
    };
    let height = match parse_u32(parts[4].as_slice()) {
        Some(n) => n,
        None => {
            return None;
        },
    };
    Some(TmuxPaneInfo { pane_id: string_of(parts[0].as_slice()), left, top, width, height })
}

/// The arguments with which the application is started in overlay mode.
#[derive(Debug)]
pub struct OverlayArgs {
    pub overlay: bool,
    pub x: i32,
    pub y: i32,
    pub pane: String,
}

impl Clone for OverlayArgs {
    fn clone(&self) -> (copy: Self)
        ensures
            copy.overlay == self.overlay,
            copy.x == self.x,
            copy.y == self.y,
            copy.pane@ == self.pane@,
    {
        OverlayArgs { overlay: self.overlay, x: self.x, y: self.y, pane: self.pane.clone() }
    }
}

/// The position of the first argument that is the given flag; the number
/// of arguments where there is none.
pub open spec fn flag_position(args: Seq<Seq<char>>, flag: Seq<char>) -> int {
    first_from(args, 0, |arg: Seq<char>| arg == flag)
}

/// The argument that follows the first occurrence of the flag, if any.
pub open spec fn flag_value(args: Seq<Seq<char>>, flag: Seq<char>) -> Option<Seq<char>> {
    if flag_position(args, flag) + 1 < args.len() {
        Some(args[flag_position(args, flag) + 1])
    } else {
        None
    }
}

/// The number given for a flag; 0 where the flag, its value or a number is
/// missing.
pub open spec fn flag_number(args: Seq<Seq<char>>, flag: Seq<char>) -> i32 {
    match flag_value(args, flag) {
        Some(value) => match i32_of(value) {
            Some(n) => n,
            None => 0,
        },
        None => 0,
    }
}

impl OverlayArgs {
    /// The position of the first argument that is the flag.
    fn position(args: &[String], flag: &str) -> (at: usize)
        ensures
            at == flag_position(strings_of(args@), flag@),
            at <= args.len(),
    {
        let ghost test = |arg: Seq<char>| arg == flag@;
        let wanted = flag.to_owned();
        let mut i: usize = 0;
        while i < args.len()
            invariant
                i <= args.len(),
                wanted@ == flag@,
                test == |arg: Seq<char>| arg == flag@,
                first_from(strings_of(args@), 0, test) == first_from(strings_of(args@), i as int, test),
            decreases args.len() - i,
        {
            assert(strings_of(args@)[i as int] == args@[i as int]@);
            if args[i] == wanted {
                return i;
            }
            i += 1;
        }
        i
    }

    /// The number that follows the flag, if one does.
    fn parse_flag(args: &[String], flag: &str) -> (value: Option<i32>)
        ensures
            value == (match flag_value(strings_of(args@), flag@) {
                Some(text) => i32_of(text),
                None => None,
            }),
    {
        let at = Self::position(args, flag);
        if at < args.len() && at + 1 < args.len() {
            assert(strings_of(args@)[at + 1] == args@[at + 1]@);
            let chars = chars_of(args[at + 1].as_str());
            parse_i32(chars.as_slice())
        } else {
            None
        }
    }

    /// The argument that follows the flag, if one does.
    fn parse_string_flag(args: &[String], flag: &str) -> (value: Option<String>)
        ensures
            match value {
                Some(text) => flag_value(strings_of(args@), flag@) == Some(text@),
                None => flag_value(strings_of(args@), flag@) is None,
            },
    {
        let at = Self::position(args, flag);
        if at < args.len() && at + 1 < args.len() {
            assert(strings_of(args@)[at + 1] == args@[at + 1]@);
            Some(args[at + 1].clone())
        } else {
            None
        }
    }

    /// Reads the overlay arguments from a command line: nothing without
    /// `--overlay`; else the position given by `--x` and `--y`, 0 where one is
    /// missing or no number, and the pane given by `--pane`, empty where missing.
    pub fn from_args(args: &[String]) -> (parsed: Option<OverlayArgs>)
        ensures
            parsed is Some <==> strings_of(args@).contains("--overlay"@),
            parsed matches Some(found) ==> {
                &&& found.overlay
                &&& found.x == flag_number(strings_of(args@), "--x"@)
                &&& found.y == flag_number(strings_of(args@), "--y"@)
                &&& found.pane@ == (match flag_value(strings_of(args@), "--pane"@) {
                    Some(pane) => pane,
                    None => Seq::empty(),
                })
            },
    {
        let at = Self::position(args, "--overlay");
        proof {
            let test = |arg: Seq<char>| arg == "--overlay"@;
            lemma_first_from(strings_of(args@), 0, test);
            if at < args.len() {
                assert(strings_of(args@)[at as int] == "--overlay"@);
            }
        }
        if at >= args.len() {
            return None;
        }
        let x = match Self::parse_flag(args, "--x") {
            Some(n) => n,
            None => 0,
        };
        let y = match Self::parse_flag(args, "--y") {
            Some(n) => n,
            None => 0,
        };
        let pane = match Self::parse_string_flag(args, "--pane") {
            Some(text) => text,
            None => String::new(),
        };
        Some(OverlayArgs { overlay: true, x, y, pane })
    }
}

} // verus!
