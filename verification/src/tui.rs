//! The state of the interactive view: the list of records with its
//! selection, and what a key press asks for.

use crate::image::Image;
use crate::mover::{move_views, MoveView, PlannedMove};
use vstd::prelude::*;

verus! {

/// Which row of a table is selected, and from which row on it is shown.
#[derive(Clone, Copy, Debug, PartialEq, Eq, Structural)]
pub struct TableState {
    pub selected: Option<usize>,
    pub offset: usize,
}

/// The records on screen and the selection among them.
#[derive(Debug, PartialEq, Eq)]
pub struct StatefulList {
    pub state: TableState,
    pub items: Vec<Image>,
    pub last_selected: Option<usize>,
}

/// A key, as far as the view tells keys apart.
#[derive(Clone, Copy, Debug, PartialEq, Eq, Structural)]
pub enum Key {
    Char(char),
    Esc,
    Down,
    Up,
    Other,
}

/// What a key press asks the pipeline or the view to do.
#[derive(Clone, Copy, Debug, PartialEq, Eq, Structural)]
pub enum Command {
    /// Nothing beyond what the state shows.
    Nothing,
    /// Leave the view.
    Quit,
    /// Scan the source directory and show the batch.
    Scan,
    /// Process every record.
    ProcessAll,
    /// Process the record at this index.
    ProcessSelected(usize),
}

/// The records that are to be processed.
#[derive(Debug, PartialEq, Eq)]
pub enum Selection {
    /// Every record of the batch.
    All,
    /// The records at these places of the batch.
    Selected(Vec<usize>),
}

/// Application state.
#[derive(Debug, PartialEq, Eq)]
pub struct App {
    /// Leave the view when true.
    pub should_exit: bool,
    /// The progress of the work under way, in percent.
    pub progress: Option<u8>,
    pub source_dir: String,
    pub target_dir: String,
    pub items: StatefulList,
}

/// The row after `selected` in a list of `len` rows, the first after the
/// last; with nothing selected, the row that was selected last, or the
/// first. A list without rows has no row to select.
pub open spec fn row_after(selected: Option<usize>, last_selected: Option<usize>, len: nat)
    -> Option<usize> {
    if len == 0 {
        None
    } else {
        match selected {
            Some(i) => if i + 1 >= len {
                Some(0)
            } else {
                Some((i + 1) as usize)
            },
            None => match last_selected {
                Some(i) => Some(i),
                None => Some(0),
            },
        }
    }
}

/// The row before `selected` in a list of `len` rows, the last before the
/// first; with nothing selected, the row that was selected last, or the
/// first. A list without rows has no row to select.
pub open spec fn row_before(selected: Option<usize>, last_selected: Option<usize>, len: nat)
    -> Option<usize> {
    if len == 0 {
        None
    } else {
        match selected {
            Some(i) => if i == 0 {
                Some((len - 1) as usize)
            } else {
                Some((i - 1) as usize)
            },
            None => match last_selected {
                Some(i) => Some(i),
                None => Some(0),
            },
        }
    }
}

/// What a key asks for, where `selected` is the selected row.
pub open spec fn command_of(key: Key, selected: Option<usize>) -> Command {
    match key {
        Key::Char(c) => if c == 'q' {
            Command::Quit
        } else if c == 's' {
            Command::Scan
        } else if c == 'p' {
            Command::ProcessAll
        } else if c == 'P' {
            match selected {
                Some(i) => Command::ProcessSelected(i),
                None => Command::Nothing,
            }
        } else {
            Command::Nothing
        },
        Key::Esc => Command::Quit,
        _ => Command::Nothing,
    }
}

/// The percentage of `total` steps that `done` steps are, rounded down;
/// 100 where nothing is left to do.
pub open spec fn percent_of(done: nat, total: nat) -> nat {
    if done >= total {
        100
    } else {
        done * 100 / total
    }
}

/// The moves among `moves` that `selection` covers, in their order.
pub open spec fn chosen(moves: Seq<MoveView>, selection: Selection) -> Seq<MoveView>
    decreases moves.len(),
{
    if moves.len() == 0 {
        Seq::empty()
    } else if selection.covers(moves.last().index) {
        chosen(moves.drop_last(), selection).push(moves.last())
    } else {
        chosen(moves.drop_last(), selection)
    }
}

/// Whether a key moves the selection down.
pub open spec fn moves_down(key: Key) -> bool {
    key == Key::Down || key == Key::Char('j')
}

/// Whether a key moves the selection up.
pub open spec fn moves_up(key: Key) -> bool {
    key == Key::Up || key == Key::Char('k')
}

impl Selection {
    /// Whether the record at place `index` is among those to be processed.
    pub open spec fn covers(self, index: int) -> bool {
        match self {
            Selection::All => true,
            Selection::Selected(places) => exists|k: int|
                0 <= k < places@.len() && (#[trigger] places@[k]) as int == index,
        }
    }

    /// Whether the record at place `index` is among those to be processed.
    pub fn holds(&self, index: usize) -> (r: bool)
        ensures
            r == self.covers(index as int),
    {
        match self {
            Selection::All => true,
            Selection::Selected(places) => {
                let mut k: usize = 0;
                while k < places.len()
                    invariant
                        k <= places.len(),
                        *self matches Selection::Selected(p) && p == *places,
                        forall|j: int| 0 <= j < k ==> places@[j] != index,
                    decreases places.len() - k,
                {
                    if places[k] == index {
                        assert(places@[k as int] == index as int);
                        return true;
                    }
                    k = k + 1;
                }
                false
            },
        }
    }
}

impl Command {
    /// The records that the command asks to be processed, where it asks for
    /// any.
    pub fn selection(&self) -> (r: Option<Selection>)
        ensures
            match *self {
                Command::ProcessAll => r == Some(Selection::All),
                Command::ProcessSelected(i) => r matches Some(Selection::Selected(places))
                    && places@ == seq![i],
                _ => r is None,
            },
    {
        match self {
            Command::ProcessAll => Some(Selection::All),
            Command::ProcessSelected(i) => {
                let mut places: Vec<usize> = Vec::new();
                places.push(*i);
                assert(places@ =~= seq![*i]);
                Some(Selection::Selected(places))
            },
            _ => None,
        }
    }
}

/// The moves among `moves` that `selection` covers, in their order.
pub fn selected_moves(moves: &Vec<PlannedMove>, selection: &Selection) -> (r: Vec<PlannedMove>)
    ensures
        move_views(r@) == chosen(move_views(moves@), *selection),
{
    let ghost all = move_views(moves@);
    let mut kept: Vec<PlannedMove> = Vec::new();
    let mut i: usize = 0;
    assert(all.take(0) =~= Seq::<MoveView>::empty());
    while i < moves.len()
        invariant
            i <= moves.len(),
            all == move_views(moves@),
            move_views(kept@) == chosen(all.take(i as int), *selection),
        decreases moves.len() - i,
    {
        let planned = &moves[i];
        let ghost so_far = move_views(kept@);
        assert(all.take(i as int + 1).drop_last() =~= all.take(i as int));
        assert(all.take(i as int + 1).last() == planned@);
        if selection.holds(planned.index) {
            let copy = PlannedMove {
                index: planned.index,
                source: planned.source.clone(),
                directory: planned.directory.clone(),
                target: planned.target.clone(),
            };
            assert(copy@ == planned@);
            kept.push(copy);
            assert(move_views(kept@) =~= so_far.push(planned@));
        }
        i = i + 1;
    }
    assert(all.take(i as int) =~= all);
    kept
}

/// The percentage of `total` steps that `done` steps are, rounded down; 100
/// where nothing is left to do.
pub fn progress_percent(done: usize, total: usize) -> (r: u8)
    ensures
        r == percent_of(done as nat, total as nat),
        r <= 100,
{
    if done >= total {
        100
    } else {
        let part: u128 = (done as u128) * 100 / (total as u128);
        assert(part < 100) by (nonlinear_arith)
            requires
                part == (done as int) * 100 / (total as int),
                0 <= done < total,
        ;
        part as u8
    }
}

impl StatefulList {
    /// A list without records and without a selection.
    pub fn new() -> (r: StatefulList)
        ensures
            r.items@.len() == 0,
            r.state.selected is None,
            r.state.offset == 0,
            r.last_selected is None,
    {
        StatefulList {
            state: TableState { selected: None, offset: 0 },
            items: Vec::new(),
            last_selected: None,
        }
    }

    /// Selects the next row, the first after the last; in a list without
    /// rows, nothing.
    pub fn next(&mut self)
        ensures
            final(self).state.selected == row_after(
                old(self).state.selected,
                old(self).last_selected,
                old(self).items@.len(),
            ),
            final(self).state.offset == old(self).state.offset,
            final(self).items == old(self).items,
            final(self).last_selected == old(self).last_selected,
    {
        if self.items.len() == 0 {
            self.state.selected = None;
            return ;
        }
        let i: usize = match self.state.selected {
            Some(i) => {
                if i >= self.items.len() - 1 {
                    0
                } else {
                    i + 1
                }
            },
            None => match self.last_selected {
                Some(i) => i,
                None => 0,
            },
        };
        self.state.selected = Some(i);
    }

    /// Selects the row before, the last before the first; in a list without
    /// rows, nothing.
    pub fn previous(&mut self)
        ensures
            final(self).state.selected == row_before(
                old(self).state.selected,
                old(self).last_selected,
                old(self).items@.len(),
            ),
            final(self).state.offset == old(self).state.offset,
            final(self).items == old(self).items,
            final(self).last_selected == old(self).last_selected,
    {
        if self.items.len() == 0 {
            self.state.selected = None;
            return ;
        }
        let i: usize = match self.state.selected {
            Some(i) => {
                if i == 0 {
                    self.items.len() - 1
                } else {
                    i - 1
                }
            },
            None => match self.last_selected {
                Some(i) => i,
                None => 0,
            },
        };
        self.state.selected = Some(i);
    }

    /// Takes the selection away and remembers it.
    pub fn unselect(&mut self)
        ensures
            final(self).state.selected is None,
            final(self).last_selected == old(self).state.selected,
            final(self).state.offset == old(self).state.offset,
            final(self).items == old(self).items,
    {
        self.last_selected = self.state.selected;
        self.state.selected = None;
    }
}

impl App {
    /// The state at the start: nothing scanned, nothing selected.
    pub fn new(source_dir: String, target_dir: String) -> (r: App)
        ensures
            !r.should_exit,
            r.progress is None,
            r.source_dir@ == source_dir@,
            r.target_dir@ == target_dir@,
            r.items.items@.len() == 0,
            r.items.state.selected is None,
            r.items.last_selected is None,
    {
        App {
            should_exit: false,
            progress: None,
            source_dir,
            target_dir,
            items: StatefulList::new(),
        }
    }

    /// Takes a key press into the state and says what it asks for. `q` and
    /// Esc end the view, `j` and Down select the next row, `k` and Up the row
    /// before; `s`, `p` and `P` ask for a scan, for all records to be
    /// processed, and for the selected one.
    pub fn handle_event(&mut self, key: Key) -> (r: Command)
        ensures
            r == command_of(key, old(self).items.state.selected),
            final(self).should_exit == (old(self).should_exit || r == Command::Quit),
            final(self).progress == old(self).progress,
            final(self).source_dir == old(self).source_dir,
            final(self).target_dir == old(self).target_dir,
            final(self).items.items == old(self).items.items,
            final(self).items.last_selected == old(self).items.last_selected,
            final(self).items.state.offset == old(self).items.state.offset,
            final(self).items.state.selected == if moves_down(key) {
                row_after(
                    old(self).items.state.selected,
                    old(self).items.last_selected,
                    old(self).items.items@.len(),
                )
            } else if moves_up(key) {
                row_before(
                    old(self).items.state.selected,
                    old(self).items.last_selected,
                    old(self).items.items@.len(),
                )
            } else {
                old(self).items.state.selected
            },
    {
        let selected = self.items.state.selected;
        match key {
            Key::Char(c) => {
                if c == 'q' {
                    self.should_exit = true;
                    Command::Quit
                } else if c == 'j' {
                    self.items.next();
                    Command::Nothing
                } else if c == 'k' {
                    self.items.previous();
                    Command::Nothing
                } else if c == 's' {
                    Command::Scan
                } else if c == 'p' {
                    Command::ProcessAll
                } else if c == 'P' {
                    match selected {
                        Some(i) => Command::ProcessSelected(i),
                        None => Command::Nothing,
                    }
                } else {
                    Command::Nothing
                }
            },
            Key::Esc => {
                self.should_exit = true;
                Command::Quit
            },
            Key::Down => {
                self.items.next();
                Command::Nothing
            },
            Key::Up => {
                self.items.previous();
                Command::Nothing
            },
            Key::Other => Command::Nothing,
        }
    }

    /// Shows a fresh batch: it takes the place of the batch on screen as a
    /// whole, and nothing is selected in it.
    pub fn scan_source(&mut self, batch: Vec<Image>)
        ensures
            final(self).items.items == batch,
            final(self).items.state.selected is None,
            final(self).items.state.offset == 0,
            final(self).items.last_selected is None,
            final(self).progress is None,
            final(self).should_exit == old(self).should_exit,
            final(self).source_dir == old(self).source_dir,
            final(self).target_dir == old(self).target_dir,
    {
        self.items = StatefulList {
            state: TableState { selected: None, offset: 0 },
            items: batch,
            last_selected: None,
        };
        self.progress = None;
    }
}

} // verus!
