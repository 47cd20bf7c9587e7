//! The editor's decisions: which pane has focus, what each key does to the
//! selections and the effect chain, and which outside work a key asks for.
//!
//! The terminal front end reads a key, hands it to `Editor::handle_key`,
//! and performs the returned `Command` (file system, audio, saving).
use vstd::prelude::*;
use crate::ontology::{default_node, kind_of, param_count, EffectKind, EffectNode, Soundcourse};
use crate::catalog::kind_label;
use crate::floatbits::f32_in_range;
use crate::text::{ends_with, has_prefix, has_suffix, pop_char, push_char};
use crate::validation::{
    effect_ok, soundcourse_ok, soundcourse_passes, ValidationMode, F32_192000, F32_8000,
};

verus! {

/// The panes and modal prompts of the editor.
#[derive(Debug, Clone, Copy, PartialEq, Eq, Structural)]
pub enum Pane {
    FileExplorer,
    EffectPalette,
    Sequence,
    Parameters,
    SavePrompt,
    DirectoryInput,
    Processing,
}

/// The keys the editor tells apart.
#[derive(Debug, Clone, Copy, PartialEq, Eq, Structural)]
pub enum Key {
    Char(char),
    Enter,
    Esc,
    Backspace,
    Tab,
    BackTab,
    Up,
    Down,
    Left,
    Right,
    Other,
}

/// A key with the state of the Shift and Control modifiers.
#[derive(Debug, Clone, Copy, PartialEq, Eq, Structural)]
pub struct KeyPress {
    pub key: Key,
    pub shift: bool,
    pub control: bool,
}

/// The format a Soundcourse is saved in.
#[derive(Debug, Clone, Copy, PartialEq, Eq, Structural)]
pub enum SaveFormat {
    Ini,
    Json,
}

/// The outside work a key asks for.
#[derive(Debug)]
pub enum Command {
    Nothing,
    /// Store the current directory for the next start, then leave.
    Quit,
    /// Stop the preview, or start one of the selected file.
    TogglePreview,
    /// Open the given path if it exists.
    OpenDirectory(String),
    /// Save the chain under this file name in the current directory, then
    /// list the directory again.
    Save(String, SaveFormat),
    /// Process every WAV file of the current directory.
    ProcessFiles,
    /// Processing was asked for, but the chain fails strict validation:
    /// report why instead.
    RefuseProcessing,
    /// Open the listed entry at this position: the parent, a directory, or
    /// an INI Soundcourse.
    OpenEntry(usize),
    /// The selected file changed; its waveform should be redrawn.
    SelectionMoved,
    /// Step parameter `.1` of effect `.0` up (`true`) or down.
    AdjustParameter(usize, usize, bool),
}

/// A command with its texts as sequences of characters.
pub enum CommandView {
    Nothing,
    Quit,
    TogglePreview,
    OpenDirectory(Seq<char>),
    Save(Seq<char>, SaveFormat),
    ProcessFiles,
    RefuseProcessing,
    OpenEntry(usize),
    SelectionMoved,
    AdjustParameter(usize, usize, bool),
}

impl View for Command {
    type V = CommandView;

    open spec fn view(&self) -> CommandView {
        match self {
            Command::Nothing => CommandView::Nothing,
            Command::Quit => CommandView::Quit,
            Command::TogglePreview => CommandView::TogglePreview,
            Command::OpenDirectory(p) => CommandView::OpenDirectory(p@),
            Command::Save(n, f) => CommandView::Save(n@, *f),
            Command::ProcessFiles => CommandView::ProcessFiles,
            Command::RefuseProcessing => CommandView::RefuseProcessing,
            Command::OpenEntry(i) => CommandView::OpenEntry(*i),
            Command::SelectionMoved => CommandView::SelectionMoved,
            Command::AdjustParameter(e, p, up) => CommandView::AdjustParameter(*e, *p, *up),
        }
    }
}

/// The number of entries in the effect palette.
pub const PALETTE_LEN: usize = 5;

/// The effect kind at position `i` of the palette: EQ, reverb, delay,
/// compressor, gain.
pub open spec fn palette_kind(i: int) -> EffectKind {
    if i == 0 {
        EffectKind::EQ
    } else if i == 1 {
        EffectKind::Reverb
    } else if i == 2 {
        EffectKind::Delay
    } else if i == 3 {
        EffectKind::Compressor
    } else {
        EffectKind::Gain
    }
}

/// The name drawn for entry `i` of the palette: EQ, Reverb, Delay,
/// Compressor, Gain.
pub open spec fn palette_label(i: int) -> Seq<char> {
    if i == 0 {
        "EQ"@
    } else if i == 1 {
        "Reverb"@
    } else if i == 2 {
        "Delay"@
    } else if i == 3 {
        "Compressor"@
    } else {
        "Gain"@
    }
}

/// The name drawn for entry `i` of the palette (see `palette_label`).
pub fn palette_name(i: usize) -> (r: &'static str)
    requires
        i < PALETTE_LEN,
    ensures
        r@ == palette_label(i as int),
{
    if i == 0 {
        "EQ"
    } else if i == 1 {
        "Reverb"
    } else if i == 2 {
        "Delay"
    } else if i == 3 {
        "Compressor"
    } else {
        "Gain"
    }
}

/// Law: each palette entry adds the effect of the kind its drawn name
/// names.
pub proof fn law_palette_kinds_match_names(i: int)
    requires
        0 <= i < PALETTE_LEN,
    ensures
        kind_label(palette_kind(i)) == palette_label(i),
{
}

/// The editor's state.
pub struct Editor {
    pub focused_pane: Pane,
    pub show_help: bool,
    pub help_scroll: u16,
    pub dir_input: String,
    pub save_input: String,
    /// Whether a directory is open.
    pub has_directory: bool,
    /// How many entries the file list shows.
    pub file_count: usize,
    pub file_selected: Option<usize>,
    pub palette_selected: Option<usize>,
    pub soundcourse: Soundcourse,
    pub sequence_selected: Option<usize>,
    pub parameter_selected: Option<usize>,
    pub should_quit: bool,
}

/// The editor's state with texts as sequences of characters, and the chain
/// as its sequence of effects with its sample rate.
pub struct EditorView {
    pub focused_pane: Pane,
    pub show_help: bool,
    pub help_scroll: u16,
    pub dir_input: Seq<char>,
    pub save_input: Seq<char>,
    pub has_directory: bool,
    pub file_count: usize,
    pub file_selected: Option<usize>,
    pub palette_selected: Option<usize>,
    pub sequence: Seq<EffectNode>,
    pub sample_rate: Option<u32>,
    pub sequence_selected: Option<usize>,
    pub parameter_selected: Option<usize>,
    pub should_quit: bool,
}

impl View for Editor {
    type V = EditorView;

    open spec fn view(&self) -> EditorView {
        EditorView {
            focused_pane: self.focused_pane,
            show_help: self.show_help,
            help_scroll: self.help_scroll,
            dir_input: self.dir_input@,
            save_input: self.save_input@,
            has_directory: self.has_directory,
            file_count: self.file_count,
            file_selected: self.file_selected,
            palette_selected: self.palette_selected,
            sequence: self.soundcourse.sequence@,
            sample_rate: self.soundcourse.sample_rate,
            sequence_selected: self.sequence_selected,
            parameter_selected: self.parameter_selected,
            should_quit: self.should_quit,
        }
    }
}

/// Whether two Soundcourses agree on everything but their effects.
pub open spec fn same_metadata(a: Soundcourse, b: Soundcourse) -> bool {
    &&& a.context == b.context
    &&& a.id == b.id
    &&& a.rdf_type == b.rdf_type
    &&& a.title == b.title
    &&& a.description == b.description
    &&& a.sample_rate == b.sample_rate
    &&& a.creator == b.creator
}

/// The pane that Tab moves the focus to.
pub open spec fn pane_after_tab(p: Pane) -> Pane {
    match p {
        Pane::FileExplorer => Pane::EffectPalette,
        Pane::EffectPalette => Pane::Sequence,
        Pane::Sequence => Pane::Parameters,
        _ => Pane::FileExplorer,
    }
}

/// The pane that Shift+Tab moves the focus to.
pub open spec fn pane_before(p: Pane) -> Pane {
    match p {
        Pane::FileExplorer => Pane::Parameters,
        Pane::EffectPalette => Pane::FileExplorer,
        Pane::Sequence => Pane::EffectPalette,
        Pane::Parameters => Pane::Sequence,
        _ => Pane::FileExplorer,
    }
}

/// The selection after Down in a list of `len` entries: the next entry,
/// wrapping from the last to the first; the first when nothing is selected.
pub open spec fn next_in_list(sel: Option<usize>, len: nat) -> usize {
    match sel {
        Some(i) => if i >= (if len == 0 { 0 } else { len - 1 }) {
            0
        } else {
            (i + 1) as usize
        },
        None => 0,
    }
}

/// The selection after Up in a list of `len` entries: the previous entry,
/// wrapping from the first to the last; the first when nothing is selected.
pub open spec fn prev_in_list(sel: Option<usize>, len: nat) -> usize {
    match sel {
        Some(i) => if i == 0 {
            (if len == 0 { 0 } else { len - 1 }) as usize
        } else {
            (i - 1) as usize
        },
        None => 0,
    }
}

/// The number of parameters of the selected effect, if an effect is
/// selected.
pub open spec fn selected_param_count(v: EditorView) -> Option<nat> {
    match v.sequence_selected {
        Some(i) => if i < v.sequence.len() {
            Some(param_count(kind_of(v.sequence[i as int])))
        } else {
            None
        },
        None => None,
    }
}

/// Down or Up outside the prompts and without Shift on the chain.
pub open spec fn move_step(v: EditorView, down: bool) -> (EditorView, CommandView) {
    match v.focused_pane {
        Pane::FileExplorer => (
            EditorView {
                file_selected: Some(
                    if down {
                        next_in_list(v.file_selected, v.file_count as nat)
                    } else {
                        prev_in_list(v.file_selected, v.file_count as nat)
                    },
                ),
                ..v
            },
            CommandView::SelectionMoved,
        ),
        Pane::EffectPalette => (
            EditorView {
                palette_selected: Some(
                    if down {
                        next_in_list(v.palette_selected, PALETTE_LEN as nat)
                    } else {
                        prev_in_list(v.palette_selected, PALETTE_LEN as nat)
                    },
                ),
                ..v
            },
            CommandView::Nothing,
        ),
        Pane::Sequence => (
            EditorView {
                sequence_selected: Some(
                    if down {
                        next_in_list(v.sequence_selected, v.sequence.len())
                    } else {
                        prev_in_list(v.sequence_selected, v.sequence.len())
                    },
                ),
                ..v
            },
            CommandView::Nothing,
        ),
        Pane::Parameters => match selected_param_count(v) {
            Some(n) => (
                EditorView {
                    parameter_selected: Some(
                        if down {
                            next_in_list(v.parameter_selected, n)
                        } else {
                            prev_in_list(v.parameter_selected, n)
                        },
                    ),
                    ..v
                },
                CommandView::Nothing,
            ),
            None => (v, CommandView::Nothing),
        },
        _ => (v, CommandView::Nothing),
    }
}

/// Shift+Down or Shift+Up on the chain: the selected effect swaps places
/// with its neighbour, and the selection follows it.
pub open spec fn reorder_step(v: EditorView, down: bool) -> EditorView {
    match v.sequence_selected {
        Some(i) => if down {
            if i + 1 < v.sequence.len() {
                EditorView {
                    sequence: v.sequence.update(i as int, v.sequence[i + 1]).update(
                        i + 1,
                        v.sequence[i as int],
                    ),
                    sequence_selected: Some((i + 1) as usize),
                    ..v
                }
            } else {
                v
            }
        } else {
            if i > 0 {
                EditorView {
                    sequence: v.sequence.update(i as int, v.sequence[i - 1]).update(
                        i - 1,
                        v.sequence[i as int],
                    ),
                    sequence_selected: Some((i - 1) as usize),
                    ..v
                }
            } else {
                v
            }
        },
        None => v,
    }
}

/// `d` on the chain: the selected effect is removed; the selection stays,
/// moves to the new last effect, or is cleared with the parameter selection
/// when the chain becomes empty.
pub open spec fn delete_step(v: EditorView) -> EditorView {
    match v.sequence_selected {
        Some(i) => if i < v.sequence.len() {
            let rest = v.sequence.remove(i as int);
            if rest.len() == 0 {
                EditorView {
                    sequence: rest,
                    sequence_selected: None,
                    parameter_selected: None,
                    ..v
                }
            } else if i >= rest.len() {
                EditorView {
                    sequence: rest,
                    sequence_selected: Some((rest.len() - 1) as usize),
                    ..v
                }
            } else {
                EditorView { sequence: rest, ..v }
            }
        } else {
            v
        },
        None => v,
    }
}

/// Enter outside the prompts, without Control: open the selected file
/// entry, or add the selected palette effect with its defaults and select it.
pub open spec fn enter_step(v: EditorView) -> (EditorView, CommandView) {
    match v.focused_pane {
        Pane::FileExplorer => if v.has_directory && v.file_selected is Some && v.file_selected->0
            < v.file_count {
            (v, CommandView::OpenEntry(v.file_selected->0))
        } else {
            (v, CommandView::Nothing)
        },
        Pane::EffectPalette => if v.palette_selected is Some && v.palette_selected->0 < PALETTE_LEN {
            let seq = v.sequence.push(default_node(palette_kind(v.palette_selected->0 as int)));
            (
                EditorView {
                    sequence: seq,
                    sequence_selected: Some((seq.len() - 1) as usize),
                    ..v
                },
                CommandView::Nothing,
            )
        } else {
            (v, CommandView::Nothing)
        },
        _ => (v, CommandView::Nothing),
    }
}

/// Left or Right: step the selected parameter of the selected effect.
pub open spec fn adjust_command(v: EditorView, up: bool) -> CommandView {
    if v.focused_pane == Pane::Parameters && v.sequence_selected is Some && v.parameter_selected
        is Some && v.sequence_selected->0 < v.sequence.len() {
        CommandView::AdjustParameter(v.sequence_selected->0, v.parameter_selected->0, up)
    } else {
        CommandView::Nothing
    }
}

/// The file a save prompt's text names: a name ending in `.ini` is saved as
/// INI, one ending in `.json` or `.jsonld` as JSON-LD, any other gets
/// `.json` appended.
pub open spec fn save_target(name: Seq<char>) -> (Seq<char>, SaveFormat) {
    if has_suffix(name, ".ini"@) {
        (name, SaveFormat::Ini)
    } else if has_suffix(name, ".json"@) || has_suffix(name, ".jsonld"@) {
        (name, SaveFormat::Json)
    } else {
        (name + ".json"@, SaveFormat::Json)
    }
}

/// A key while the help is shown: Esc or `?` close it, Down and Up scroll
/// (Down stops at the last scroll position).
pub open spec fn help_step(v: EditorView, k: KeyPress) -> EditorView {
    match k.key {
        Key::Esc => EditorView { show_help: false, help_scroll: 0, ..v },
        Key::Char(c) => if c == '?' {
            EditorView { show_help: false, help_scroll: 0, ..v }
        } else {
            v
        },
        Key::Down => EditorView {
            help_scroll: if v.help_scroll < u16::MAX {
                (v.help_scroll + 1) as u16
            } else {
                v.help_scroll
            },
            ..v
        },
        Key::Up => EditorView {
            help_scroll: if v.help_scroll == 0 {
                0
            } else {
                (v.help_scroll - 1) as u16
            },
            ..v
        },
        _ => v,
    }
}

/// A key in the directory prompt: Enter opens the typed path, Esc cancels,
/// characters and Backspace edit.
pub open spec fn directory_step(v: EditorView, k: KeyPress) -> (EditorView, CommandView) {
    match k.key {
        Key::Enter => (
            EditorView { focused_pane: Pane::FileExplorer, dir_input: Seq::empty(), ..v },
            if v.dir_input.len() > 0 {
                CommandView::OpenDirectory(v.dir_input)
            } else {
                CommandView::Nothing
            },
        ),
        Key::Esc => (
            EditorView { focused_pane: Pane::FileExplorer, dir_input: Seq::empty(), ..v },
            CommandView::Nothing,
        ),
        Key::Char(c) => (EditorView { dir_input: v.dir_input.push(c), ..v }, CommandView::Nothing),
        Key::Backspace => (
            EditorView {
                dir_input: if v.dir_input.len() > 0 {
                    v.dir_input.drop_last()
                } else {
                    v.dir_input
                },
                ..v
            },
            CommandView::Nothing,
        ),
        _ => (v, CommandView::Nothing),
    }
}

/// A key in the save prompt: Enter saves under the typed name when a
/// directory is open, Esc cancels, characters and Backspace edit; Enter
/// and Esc return to the chain.
pub open spec fn save_step(v: EditorView, k: KeyPress) -> (EditorView, CommandView) {
    match k.key {
        Key::Enter => (
            EditorView { focused_pane: Pane::Sequence, save_input: Seq::empty(), ..v },
            if v.save_input.len() > 0 && v.has_directory {
                CommandView::Save(save_target(v.save_input).0, save_target(v.save_input).1)
            } else {
                CommandView::Nothing
            },
        ),
        Key::Esc => (
            EditorView { focused_pane: Pane::Sequence, save_input: Seq::empty(), ..v },
            CommandView::Nothing,
        ),
        Key::Char(c) => (EditorView { save_input: v.save_input.push(c), ..v }, CommandView::Nothing),
        Key::Backspace => (
            EditorView {
                save_input: if v.save_input.len() > 0 {
                    v.save_input.drop_last()
                } else {
                    v.save_input
                },
                ..v
            },
            CommandView::Nothing,
        ),
        _ => (v, CommandView::Nothing),
    }
}

/// Whether the chain may be processed: it passes strict validation (at
/// least one effect, a sample rate in 8000..=192000 Hz when present, every
/// parameter in its range).
pub open spec fn chain_processable(v: EditorView) -> bool {
    &&& v.sequence.len() > 0
    &&& (v.sample_rate matches Some(r) ==> f32_in_range(r, F32_8000, F32_192000))
    &&& forall|i: int| 0 <= i < v.sequence.len() ==> effect_ok(#[trigger] v.sequence[i])
}

/// A main key: Ctrl+Enter asks for processing only for a chain that may be
/// processed.
pub open spec fn main_step(v: EditorView, k: KeyPress) -> (EditorView, CommandView) {
    match k.key {
        Key::Char(c) => if c == 'q' {
            (EditorView { should_quit: true, ..v }, CommandView::Quit)
        } else if c == '?' {
            (EditorView { show_help: true, ..v }, CommandView::Nothing)
        } else if c == 'p' {
            (v, CommandView::TogglePreview)
        } else if c == 'o' {
            (EditorView { focused_pane: Pane::DirectoryInput, ..v }, CommandView::Nothing)
        } else if c == 's' {
            (EditorView { focused_pane: Pane::SavePrompt, ..v }, CommandView::Nothing)
        } else if c == 'd' {
            (
                if v.focused_pane == Pane::Sequence {
                    delete_step(v)
                } else {
                    v
                },
                CommandView::Nothing,
            )
        } else {
            (v, CommandView::Nothing)
        },
        Key::Tab => (
            EditorView { focused_pane: pane_after_tab(v.focused_pane), ..v },
            CommandView::Nothing,
        ),
        Key::BackTab => (
            EditorView { focused_pane: pane_before(v.focused_pane), ..v },
            CommandView::Nothing,
        ),
        Key::Down => if k.shift && v.focused_pane == Pane::Sequence {
            (reorder_step(v, true), CommandView::Nothing)
        } else {
            move_step(v, true)
        },
        Key::Up => if k.shift && v.focused_pane == Pane::Sequence {
            (reorder_step(v, false), CommandView::Nothing)
        } else {
            move_step(v, false)
        },
        Key::Left => (v, adjust_command(v, false)),
        Key::Right => (v, adjust_command(v, true)),
        Key::Enter => if k.control {
            (
                v,
                if chain_processable(v) {
                    CommandView::ProcessFiles
                } else {
                    CommandView::RefuseProcessing
                },
            )
        } else {
            enter_step(v)
        },
        _ => (v, CommandView::Nothing),
    }
}

/// What a key does: the help takes every key while it is shown, then the
/// directory prompt, then the save prompt; otherwise the main bindings.
pub open spec fn key_step(v: EditorView, k: KeyPress) -> (EditorView, CommandView) {
    if v.show_help {
        (help_step(v, k), CommandView::Nothing)
    } else if v.focused_pane == Pane::DirectoryInput {
        directory_step(v, k)
    } else if v.focused_pane == Pane::SavePrompt {
        save_step(v, k)
    } else {
        main_step(v, k)
    }
}

/// Whether the chain selection is an effect of the chain, or the first
/// position of an empty chain (where Down in an empty list puts it).
pub open spec fn selection_in_chain(v: EditorView) -> bool {
    v.sequence_selected matches Some(i) ==> i < v.sequence.len() || i == 0
}



/// The effect kind at position `i` of the palette.
fn palette_kind_at(i: usize) -> (k: EffectKind)
    requires
        i < PALETTE_LEN,
    ensures
        k == palette_kind(i as int),
{
    if i == 0 {
        EffectKind::EQ
    } else if i == 1 {
        EffectKind::Reverb
    } else if i == 2 {
        EffectKind::Delay
    } else if i == 3 {
        EffectKind::Compressor
    } else {
        EffectKind::Gain
    }
}

/// The entry after `sel` in a list of `len` entries (see `next_in_list`).
fn next_index(sel: Option<usize>, len: usize) -> (r: usize)
    ensures
        r == next_in_list(sel, len as nat),
{
    match sel {
        Some(i) => if i >= len.saturating_sub(1) {
            0
        } else {
            i + 1
        },
        None => 0,
    }
}

/// The entry before `sel` in a list of `len` entries (see `prev_in_list`).
fn prev_index(sel: Option<usize>, len: usize) -> (r: usize)
    ensures
        r == prev_in_list(sel, len as nat),
{
    match sel {
        Some(i) => if i == 0 {
            len.saturating_sub(1)
        } else {
            i - 1
        },
        None => 0,
    }
}

impl Editor {
    /// A fresh editor on the Soundcourse `soundcourse`: focus on the file
    /// list, no directory, nothing selected, no help, empty prompts.
    pub fn new(soundcourse: Soundcourse) -> (e: Editor)
        ensures
            e.focused_pane == Pane::FileExplorer,
            !e.show_help,
            e.help_scroll == 0,
            e.dir_input@.len() == 0,
            e.save_input@.len() == 0,
            !e.has_directory,
            e.file_count == 0,
            e.file_selected is None,
            e.palette_selected is None,
            e.soundcourse == soundcourse,
            e.sequence_selected is None,
            e.parameter_selected is None,
            !e.should_quit,
            selection_in_chain(e@),
    {
        Editor {
            focused_pane: Pane::FileExplorer,
            show_help: false,
            help_scroll: 0,
            dir_input: String::new(),
            save_input: String::new(),
            has_directory: false,
            file_count: 0,
            file_selected: None,
            palette_selected: None,
            soundcourse,
            sequence_selected: None,
            parameter_selected: None,
            should_quit: false,
        }
    }

    /// Down or Up without Shift on the chain (see `move_step`).
    fn move_selection(&mut self, down: bool) -> (cmd: Command)
        requires
            selection_in_chain(old(self)@),
        ensures
            (final(self)@, cmd@) == move_step(old(self)@, down),
            final(self).soundcourse == old(self).soundcourse,
    {
        match self.focused_pane {
            Pane::FileExplorer => {
                let i = if down {
                    next_index(self.file_selected, self.file_count)
                } else {
                    prev_index(self.file_selected, self.file_count)
                };
                self.file_selected = Some(i);
                Command::SelectionMoved
            },
            Pane::EffectPalette => {
                let i = if down {
                    next_index(self.palette_selected, PALETTE_LEN)
                } else {
                    prev_index(self.palette_selected, PALETTE_LEN)
                };
                self.palette_selected = Some(i);
                Command::Nothing
            },
            Pane::Sequence => {
                let len = self.soundcourse.sequence.len();
                let i = if down {
                    next_index(self.sequence_selected, len)
                } else {
                    prev_index(self.sequence_selected, len)
                };
                self.sequence_selected = Some(i);
                Command::Nothing
            },
            Pane::Parameters => {
                match self.sequence_selected {
                    Some(idx) => {
                        if idx < self.soundcourse.sequence.len() {
                            let n = self.soundcourse.sequence[idx].kind().param_count();
                            let i = if down {
                                next_index(self.parameter_selected, n)
                            } else {
                                prev_index(self.parameter_selected, n)
                            };
                            self.parameter_selected = Some(i);
                        }
                    },
                    None => {},
                }
                Command::Nothing
            },
            _ => Command::Nothing,
        }
    }

    /// Shift+Down or Shift+Up on the chain (see `reorder_step`).
    fn reorder_node(&mut self, down: bool)
        requires
            selection_in_chain(old(self)@),
        ensures
            final(self)@ == reorder_step(old(self)@, down),
            same_metadata(old(self).soundcourse, final(self).soundcourse),
    {
        match self.sequence_selected {
            Some(idx) => {
                let len = self.soundcourse.sequence.len();
                if down {
                    if idx + 1 < len {
                        let a = self.soundcourse.sequence[idx];
                        let b = self.soundcourse.sequence[idx + 1];
                        self.soundcourse.sequence.set(idx, b);
                        self.soundcourse.sequence.set(idx + 1, a);
                        self.sequence_selected = Some(idx + 1);
                    }
                } else {
                    if idx > 0 {
                        let a = self.soundcourse.sequence[idx];
                        let b = self.soundcourse.sequence[idx - 1];
                        self.soundcourse.sequence.set(idx, b);
                        self.soundcourse.sequence.set(idx - 1, a);
                        self.sequence_selected = Some(idx - 1);
                    }
                }
            },
            None => {},
        }
    }

    /// `d` on the chain (see `delete_step`).
    fn delete_node(&mut self)
        ensures
            final(self)@ == delete_step(old(self)@),
            same_metadata(old(self).soundcourse, final(self).soundcourse),
    {
        match self.sequence_selected {
            Some(idx) => {
                if idx < self.soundcourse.sequence.len() {
                    self.soundcourse.sequence.remove(idx);
                    let len = self.soundcourse.sequence.len();
                    if len == 0 {
                        self.sequence_selected = None;
                        self.parameter_selected = None;
                    } else if idx >= len {
                        self.sequence_selected = Some(len - 1);
                    }
                }
            },
            None => {},
        }
    }

    /// Enter outside the prompts, without Control (see `enter_step`).
    fn handle_enter(&mut self) -> (cmd: Command)
        requires
            old(self)@.sequence.len() < usize::MAX,
        ensures
            (final(self)@, cmd@) == enter_step(old(self)@),
            same_metadata(old(self).soundcourse, final(self).soundcourse),
    {
        match self.focused_pane {
            Pane::FileExplorer => {
                if self.has_directory {
                    match self.file_selected {
                        Some(idx) => {
                            if idx < self.file_count {
                                return Command::OpenEntry(idx);
                            }
                        },
                        None => {},
                    }
                }
                Command::Nothing
            },
            Pane::EffectPalette => {
                match self.palette_selected {
                    Some(idx) => {
                        if idx < PALETTE_LEN {
                            let node = EffectNode::with_defaults(palette_kind_at(idx));
                            self.soundcourse.sequence.push(node);
                            self.sequence_selected = Some(self.soundcourse.sequence.len() - 1);
                        }
                    },
                    None => {},
                }
                Command::Nothing
            },
            _ => Command::Nothing,
        }
    }

    /// Left or Right (see `adjust_command`).
    fn adjust_parameter(&self, up: bool) -> (cmd: Command)
        ensures
            cmd@ == adjust_command(self@, up),
    {
        if matches!(self.focused_pane, Pane::Parameters) {
            match (self.sequence_selected, self.parameter_selected) {
                (Some(s), Some(p)) => {
                    if s < self.soundcourse.sequence.len() {
                        return Command::AdjustParameter(s, p, up);
                    }
                },
                _ => {},
            }
        }
        Command::Nothing
    }
}


impl Editor {
    /// A key while the help is shown (see `help_step`).
    fn help_key(&mut self, k: KeyPress)
        ensures
            final(self)@ == help_step(old(self)@, k),
            final(self).soundcourse == old(self).soundcourse,
    {
        match k.key {
            Key::Esc => {
                self.show_help = false;
                self.help_scroll = 0;
            },
            Key::Char(c) => {
                if c == '?' {
                    self.show_help = false;
                    self.help_scroll = 0;
                }
            },
            Key::Down => {
                self.help_scroll = self.help_scroll.saturating_add(1);
            },
            Key::Up => {
                self.help_scroll = self.help_scroll.saturating_sub(1);
            },
            _ => {},
        }
    }

    /// A key in the directory prompt (see `directory_step`).
    fn directory_key(&mut self, k: KeyPress) -> (cmd: Command)
        ensures
            (final(self)@, cmd@) == directory_step(old(self)@, k),
            final(self).soundcourse == old(self).soundcourse,
    {
        match k.key {
            Key::Enter => {
                let typed = self.dir_input.clone();
                self.focused_pane = Pane::FileExplorer;
                self.dir_input = String::new();
                if typed.unicode_len() > 0 {
                    Command::OpenDirectory(typed)
                } else {
                    Command::Nothing
                }
            },
            Key::Esc => {
                self.focused_pane = Pane::FileExplorer;
                self.dir_input = String::new();
                Command::Nothing
            },
            Key::Char(c) => {
                push_char(&mut self.dir_input, c);
                Command::Nothing
            },
            Key::Backspace => {
                pop_char(&mut self.dir_input);
                Command::Nothing
            },
            _ => Command::Nothing,
        }
    }

    /// A key in the save prompt (see `save_step`).
    fn save_key(&mut self, k: KeyPress) -> (cmd: Command)
        ensures
            (final(self)@, cmd@) == save_step(old(self)@, k),
            final(self).soundcourse == old(self).soundcourse,
    {
        proof {
            reveal_strlit(".ini");
            reveal_strlit(".json");
            reveal_strlit(".jsonld");
        }
        match k.key {
            Key::Enter => {
                let typed = self.save_input.clone();
                self.focused_pane = Pane::Sequence;
                self.save_input = String::new();
                if typed.unicode_len() > 0 && self.has_directory {
                    if ends_with(typed.as_str(), ".ini") {
                        Command::Save(typed, SaveFormat::Ini)
                    } else if ends_with(typed.as_str(), ".json") || ends_with(
                        typed.as_str(),
                        ".jsonld",
                    ) {
                        Command::Save(typed, SaveFormat::Json)
                    } else {
                        Command::Save(typed.concat(".json"), SaveFormat::Json)
                    }
                } else {
                    Command::Nothing
                }
            },
            Key::Esc => {
                self.focused_pane = Pane::Sequence;
                self.save_input = String::new();
                Command::Nothing
            },
            Key::Char(c) => {
                push_char(&mut self.save_input, c);
                Command::Nothing
            },
            Key::Backspace => {
                pop_char(&mut self.save_input);
                Command::Nothing
            },
            _ => Command::Nothing,
        }
    }

    /// A key outside the help and the prompts (see `main_step`).
    fn main_key(&mut self, k: KeyPress) -> (cmd: Command)
        requires
            selection_in_chain(old(self)@),
            old(self)@.sequence.len() < usize::MAX,
        ensures
            (final(self)@, cmd@) == main_step(old(self)@, k),
            same_metadata(old(self).soundcourse, final(self).soundcourse),
    {
        match k.key {
            Key::Char(c) => {
                if c == 'q' {
                    self.should_quit = true;
                    Command::Quit
                } else if c == '?' {
                    self.show_help = true;
                    Command::Nothing
                } else if c == 'p' {
                    Command::TogglePreview
                } else if c == 'o' {
                    self.focused_pane = Pane::DirectoryInput;
                    Command::Nothing
                } else if c == 's' {
                    self.focused_pane = Pane::SavePrompt;
                    Command::Nothing
                } else if c == 'd' {
                    if matches!(self.focused_pane, Pane::Sequence) {
                        self.delete_node();
                    }
                    Command::Nothing
                } else {
                    Command::Nothing
                }
            },
            Key::Tab => {
                self.focused_pane = match self.focused_pane {
                    Pane::FileExplorer => Pane::EffectPalette,
                    Pane::EffectPalette => Pane::Sequence,
                    Pane::Sequence => Pane::Parameters,
                    _ => Pane::FileExplorer,
                };
                Command::Nothing
            },
            Key::BackTab => {
                self.focused_pane = match self.focused_pane {
                    Pane::FileExplorer => Pane::Parameters,
                    Pane::EffectPalette => Pane::FileExplorer,
                    Pane::Sequence => Pane::EffectPalette,
                    Pane::Parameters => Pane::Sequence,
                    _ => Pane::FileExplorer,
                };
                Command::Nothing
            },
            Key::Down => {
                if k.shift && matches!(self.focused_pane, Pane::Sequence) {
                    self.reorder_node(true);
                    Command::Nothing
                } else {
                    self.move_selection(true)
                }
            },
            Key::Up => {
                if k.shift && matches!(self.focused_pane, Pane::Sequence) {
                    self.reorder_node(false);
                    Command::Nothing
                } else {
                    self.move_selection(false)
                }
            },
            Key::Left => self.adjust_parameter(false),
            Key::Right => self.adjust_parameter(true),
            Key::Enter => {
                if k.control {
                    if soundcourse_passes(&self.soundcourse, ValidationMode::Strict) {
                        Command::ProcessFiles
                    } else {
                        Command::RefuseProcessing
                    }
                } else {
                    self.handle_enter()
                }
            },
            _ => Command::Nothing,
        }
    }

    /// Whether `handle_key` may be called in this state: the chain
    /// selection is in the chain and the chain can still grow. Every state
    /// the editor's own operations make is such a state.
    pub fn is_consistent(&self) -> (r: bool)
        ensures
            r == (selection_in_chain(self@) && self@.sequence.len() < usize::MAX),
    {
        let len = self.soundcourse.sequence.len();
        let in_chain = match self.sequence_selected {
            Some(i) => i < len || i == 0,
            None => true,
        };
        in_chain && len < usize::MAX
    }

    /// What a key does (see `key_step`), and the outside work it asks for.
    pub fn handle_key(&mut self, k: KeyPress) -> (cmd: Command)
        requires
            selection_in_chain(old(self)@),
            old(self)@.sequence.len() < usize::MAX,
        ensures
            (final(self)@, cmd@) == key_step(old(self)@, k),
            same_metadata(old(self).soundcourse, final(self).soundcourse),
    {
        if self.show_help {
            self.help_key(k);
            Command::Nothing
        } else if matches!(self.focused_pane, Pane::DirectoryInput) {
            self.directory_key(k)
        } else if matches!(self.focused_pane, Pane::SavePrompt) {
            self.save_key(k)
        } else {
            self.main_key(k)
        }
    }
}


impl Editor {
    /// The file list was read again and shows `count` entries: with at least
    /// one entry the first is selected, otherwise the selection is kept.
    pub fn files_refreshed(&mut self, count: usize)
        ensures
            final(self)@ == (EditorView {
                file_count: count,
                file_selected: if count > 0 {
                    Some(0usize)
                } else {
                    old(self).file_selected
                },
                ..old(self)@
            }),
            final(self).soundcourse == old(self).soundcourse,
    {
        self.file_count = count;
        if count > 0 {
            self.file_selected = Some(0);
        }
    }

    /// A directory was opened (or none is).
    pub fn set_has_directory(&mut self, has_directory: bool)
        ensures
            final(self)@ == (EditorView { has_directory, ..old(self)@ }),
            final(self).soundcourse == old(self).soundcourse,
    {
        self.has_directory = has_directory;
    }

    /// Moves the focus to `pane` (used while files are processed).
    pub fn set_focus(&mut self, pane: Pane)
        ensures
            final(self)@ == (EditorView { focused_pane: pane, ..old(self)@ }),
            final(self).soundcourse == old(self).soundcourse,
    {
        self.focused_pane = pane;
    }

    /// A Soundcourse was loaded: it replaces the current one, its first
    /// effect is selected if it has one, and no parameter is selected.
    pub fn load_soundcourse(&mut self, soundcourse: Soundcourse)
        ensures
            final(self).soundcourse == soundcourse,
            final(self)@ == (EditorView {
                sequence: soundcourse.sequence@,
                sample_rate: soundcourse.sample_rate,
                sequence_selected: if soundcourse.sequence@.len() > 0 {
                    Some(0usize)
                } else {
                    None
                },
                parameter_selected: None,
                ..old(self)@
            }),
            selection_in_chain(final(self)@),
    {
        let nonempty = soundcourse.sequence.len() > 0;
        self.soundcourse = soundcourse;
        self.sequence_selected = if nonempty {
            Some(0)
        } else {
            None
        };
        self.parameter_selected = None;
    }

    /// Replaces the effect at `index` (after a parameter was stepped).
    pub fn set_effect(&mut self, index: usize, node: EffectNode)
        requires
            index < old(self)@.sequence.len(),
        ensures
            final(self)@ == (EditorView {
                sequence: old(self)@.sequence.update(index as int, node),
                ..old(self)@
            }),
            same_metadata(old(self).soundcourse, final(self).soundcourse),
    {
        self.soundcourse.sequence.set(index, node);
    }
}

/// Law: every key keeps the chain selection on an effect of the chain (or
/// on the first position of an empty chain).
pub proof fn law_keys_keep_selection_in_chain(v: EditorView, k: KeyPress)
    requires
        selection_in_chain(v),
    ensures
        selection_in_chain(key_step(v, k).0),
{
}

/// Law: Shift+Down followed by Shift+Up on the chain puts the moved effect
/// back and restores the chain and its selection.
pub proof fn law_reorder_round_trip(v: EditorView)
    requires
        v.sequence_selected matches Some(i) && i + 1 < v.sequence.len(),
        v.sequence.len() <= usize::MAX,
    ensures
        reorder_step(reorder_step(v, true), false) == v,
{
    let i = v.sequence_selected->0;
    let w = reorder_step(v, true);
    assert(w.sequence_selected == Some((i + 1) as usize));
    let u = reorder_step(w, false);
    assert(u.sequence =~= v.sequence);
    assert(u.sequence_selected == v.sequence_selected);
}

/// Law: in a list of `len` entries, Down then Up returns to the selected
/// entry, and so does Up then Down.
pub proof fn law_list_moves_undo(i: usize, len: nat)
    requires
        i < len,
        len <= usize::MAX,
    ensures
        prev_in_list(Some(next_in_list(Some(i), len)), len) == i,
        next_in_list(Some(prev_in_list(Some(i), len)), len) == i,
{
}

/// Law: on the four main panes, Tab then Shift+Tab returns to the same
/// pane, and so does Shift+Tab then Tab.
pub proof fn law_tab_round_trip(p: Pane)
    requires
        p == Pane::FileExplorer || p == Pane::EffectPalette || p == Pane::Sequence || p
            == Pane::Parameters,
    ensures
        pane_before(pane_after_tab(p)) == p,
        pane_after_tab(pane_before(p)) == p,
{
}

/// Law: `d` on the chain removes exactly the selected effect and keeps the
/// others in order.
pub proof fn law_delete_removes_selected(v: EditorView)
    requires
        v.sequence_selected matches Some(i) && i < v.sequence.len(),
    ensures
        delete_step(v).sequence == v.sequence.remove(v.sequence_selected->0 as int),
        delete_step(v).sequence.len() + 1 == v.sequence.len(),
{
}


/// Law: Ctrl+Enter asks for processing exactly when the editor's
/// Soundcourse passes strict validation.
pub proof fn law_processing_needs_strict_validity(e: Editor)
    ensures
        chain_processable(e@) == soundcourse_ok(e.soundcourse, ValidationMode::Strict),
{
}

/// The focused list, if the focus is on one: its selection and its length
/// (the parameter list only while an effect of the chain is selected).
pub open spec fn focused_list(v: EditorView) -> Option<(Option<usize>, nat)> {
    match v.focused_pane {
        Pane::FileExplorer => Some((v.file_selected, v.file_count as nat)),
        Pane::EffectPalette => Some((v.palette_selected, PALETTE_LEN as nat)),
        Pane::Sequence => Some((v.sequence_selected, v.sequence.len())),
        Pane::Parameters => match selected_param_count(v) {
            Some(n) => Some((v.parameter_selected, n)),
            None => None,
        },
        _ => None,
    }
}

/// A key without Shift or Control.
pub open spec fn plain_key(k: Key) -> KeyPress {
    KeyPress { key: k, shift: false, control: false }
}

/// Law: with the help closed and the focus on a list whose entry `i` is
/// selected, Down then Up, and Up then Down, give back the same state.
pub proof fn law_down_then_up_restores(v: EditorView, i: usize)
    requires
        !v.show_help,
        focused_list(v) matches Some((sel, n)) && sel == Some(i) && i < n,
        v.sequence.len() <= usize::MAX,
    ensures
        key_step(key_step(v, plain_key(Key::Down)).0, plain_key(Key::Up)).0 == v,
        key_step(key_step(v, plain_key(Key::Up)).0, plain_key(Key::Down)).0 == v,
{
    let n = focused_list(v).unwrap().1;
    law_list_moves_undo(i, n);
}

/// Law: with the help closed and the first entry of the focused list
/// selected, Up selects its last entry.
pub proof fn law_up_from_first_selects_last(v: EditorView)
    requires
        !v.show_help,
        focused_list(v) matches Some((sel, n)) && sel == Some(0usize) && n >= 1,
        v.sequence.len() <= usize::MAX,
    ensures
        focused_list(key_step(v, plain_key(Key::Up)).0) == Some(
            (Some((focused_list(v).unwrap().1 - 1) as usize), focused_list(v).unwrap().1),
        ),
{
}


/// Law: Enter on palette entry `i` appends, with its defaults, the effect
/// whose kind has the drawn name of entry `i`, keeps the effects before it,
/// and selects the new effect.
pub proof fn law_palette_enter_appends_named_effect(v: EditorView, i: usize)
    requires
        !v.show_help,
        v.focused_pane == Pane::EffectPalette,
        v.palette_selected == Some(i),
        i < PALETTE_LEN,
        v.sequence.len() < usize::MAX,
    ensures
        key_step(v, plain_key(Key::Enter)).0.sequence.len() == v.sequence.len() + 1,
        key_step(v, plain_key(Key::Enter)).0.sequence.take(v.sequence.len() as int) == v.sequence,
        kind_label(kind_of(key_step(v, plain_key(Key::Enter)).0.sequence.last())) == palette_label(
            i as int,
        ),
        key_step(v, plain_key(Key::Enter)).0.sequence.last() == default_node(
            kind_of(key_step(v, plain_key(Key::Enter)).0.sequence.last()),
        ),
        key_step(v, plain_key(Key::Enter)).0.sequence_selected == Some(v.sequence.len() as usize),
{
    let w = key_step(v, plain_key(Key::Enter)).0;
    assert(w.sequence.take(v.sequence.len() as int) =~= v.sequence);
}

/// Law: Left and Right ask to step a parameter only in the parameter pane,
/// with the help closed, and then for the selected parameter of the
/// selected effect of the chain: up for Right, down for Left.
pub proof fn law_adjust_steps_the_selection(v: EditorView, k: KeyPress)
    ensures
        key_step(v, k).1 matches CommandView::AdjustParameter(e, p, up) ==> {
            &&& !v.show_help
            &&& v.focused_pane == Pane::Parameters
            &&& v.sequence_selected == Some(e)
            &&& v.parameter_selected == Some(p)
            &&& e < v.sequence.len()
            &&& (k.key == Key::Left || k.key == Key::Right)
            &&& (up <==> k.key == Key::Right)
        },
{
}


/// Law: the save prompt saves under the typed name, with `.json` added only
/// when the name ends in none of `.ini`, `.json` and `.jsonld`; a name is
/// saved as INI exactly when it ends in `.ini`.
pub proof fn law_save_names(name: Seq<char>)
    ensures
        has_prefix(save_target(name).0, name),
        (save_target(name).1 == SaveFormat::Ini) <==> has_suffix(name, ".ini"@),
        has_suffix(name, ".ini"@) || has_suffix(name, ".json"@) || has_suffix(name, ".jsonld"@)
            ==> save_target(name).0 == name,
        !(has_suffix(name, ".ini"@) || has_suffix(name, ".json"@) || has_suffix(name, ".jsonld"@))
            ==> save_target(name).0 == name + ".json"@,
{
    assert((name + ".json"@).subrange(0, name.len() as int) =~= name);
    assert(name.subrange(0, name.len() as int) =~= name);
}

} // verus!
