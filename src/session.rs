use vstd::prelude::*;
use vstd::utf8::encode_utf8;

use crate::model::{location_in, MemoryMap, SearchLocation, TaskMemory};
use crate::search::{lemma_searchable_bounds, searchable, MemorySearch};
use crate::tasks::{index_down, index_down_exec, index_up, index_up_exec, Task, TaskSelection};
use crate::text::{dec_text, pop_char, push_char, with_count};

verus! {

/// The two screens: the task list, and the memory editor of one task.
#[derive(PartialEq, Eq, Structural, Debug, Clone, Copy)]
pub enum CurrentScreen {
    TaskSelectionScreen,
    MemoryEditingScreen,
}

/// The parts of the memory editor: the region list, the search with its
/// results, and the editor of one value.
#[derive(PartialEq, Eq, Structural, Debug, Clone, Copy)]
pub enum SubScreen {
    MemoryMaps,
    MemorySearch,
    ValueEditing,
}

/// The state of the session, as its transition table names it.
#[derive(PartialEq, Eq, Structural, Debug, Clone, Copy)]
pub enum SessionState {
    TaskSelect,
    MapList,
    Search,
    ValueEdit,
}

/// What the user asks of the session.
#[derive(PartialEq, Eq, Structural, Debug, Clone, Copy)]
pub enum Command {
    Up,
    Down,
    ToggleMaps,
    Escape,
    Submit,
    OpenEditor,
    Type(char),
    Backspace,
    Refresh,
    FilterByName,
    FilterByPid,
}

/// Why an access to a process's memory failed.
#[derive(PartialEq, Eq, Structural, Debug, Clone, Copy)]
pub enum MemoryError {
    /// The process is gone or its memory may not be opened.
    NotAccessible,
    /// Fewer bytes were moved than asked for.
    ShortIo,
    /// Seeking to the address failed.
    SeekFailure,
    /// Writing failed.
    WriteFailure,
}

/// The status text for a failed memory access; a short write reads as a
/// failed write.
pub open spec fn error_text(e: MemoryError) -> Seq<char> {
    match e {
        MemoryError::NotAccessible => "Failed to open mem file"@,
        MemoryError::SeekFailure => "Failed to seek mem file"@,
        MemoryError::ShortIo => "Failed to write at memory"@,
        MemoryError::WriteFailure => "Failed to write at memory"@,
    }
}

impl MemoryError {
    /// The status text for this failure.
    pub fn message(&self) -> (r: String)
        ensures
            r@ == error_text(*self),
    {
        match self {
            MemoryError::NotAccessible => "Failed to open mem file".to_string(),
            MemoryError::SeekFailure => "Failed to seek mem file".to_string(),
            MemoryError::ShortIo => "Failed to write at memory".to_string(),
            MemoryError::WriteFailure => "Failed to write at memory".to_string(),
        }
    }
}

/// What the caller is to do for the session after a command.
pub enum Effect {
    Nothing,
    /// End the session.
    Quit,
    /// List the processes again and hand them to `TaskSelection::refresh_list`.
    LoadTasks,
    /// Read the region table of this pid and hand it to `Kunai::map_loaded`.
    LoadMap(String),
    /// Run this scan to its end and hand it to `Kunai::search_done`.
    Scan(MemorySearch),
    /// Write these bytes at this absolute address and hand the outcome to
    /// `Kunai::write_done`.
    Write(usize, Vec<u8>),
}

/// The memory editor of the selected task.
#[derive(Debug)]
pub struct MemoryEditor {
    pub task: Task,
    pub task_mem: TaskMemory,
    pub search_string: String,
    pub search_list: Vec<SearchLocation>,
    pub sub_screen: SubScreen,
    /// The selected entry of the region list.
    pub map_selected: Option<usize>,
    /// The selected entry of the search results.
    pub search_selected: Option<usize>,
    pub ui_msg: Option<String>,
    /// The text to write over the selected value.
    pub new_value: String,
}

impl MemoryEditor {
    pub open spec fn wf(&self) -> bool {
        &&& self.map_selected matches Some(i) ==> i < self.task_mem.maps@.len()
        &&& self.search_selected matches Some(i) ==> i < self.search_list@.len()
        &&& forall|k: int|
            0 <= k < self.search_list@.len() ==> location_in(
                self.task_mem.maps@,
                #[trigger] self.search_list@[k],
            )
    }

    /// Whether every location of `found` lies in the region it names.
    fn all_fit(&self, found: &Vec<SearchLocation>) -> (r: bool)
        ensures
            r == forall|k: int|
                0 <= k < found@.len() ==> location_in(self.task_mem.maps@, #[trigger] found@[k]),
    {
        let mut i: usize = 0;
        while i < found.len()
            invariant
                i <= found@.len(),
                forall|k: int|
                    0 <= k < i ==> location_in(self.task_mem.maps@, #[trigger] found@[k]),
            decreases found@.len() - i,
        {
            let loc = &found[i];
            if loc.region >= self.task_mem.maps.len() {
                return false;
            }
            let m = &self.task_mem.maps[loc.region];
            if !(m.start <= loc.start && loc.start < loc.end && loc.end <= m.end) {
                return false;
            }
            i += 1;
        }
        true
    }

    /// No task, no regions, no results.
    pub fn new() -> (r: MemoryEditor)
        ensures
            r.wf(),
            r.task_mem.maps@.len() == 0,
            r.search_list@.len() == 0,
            r.search_string@.len() == 0,
            r.new_value@.len() == 0,
            r.sub_screen == SubScreen::MemorySearch,
            r.map_selected is None,
            r.search_selected is None,
            r.ui_msg is None,
    {
        MemoryEditor {
            task: Task::new(),
            task_mem: TaskMemory::new(),
            search_string: String::new(),
            search_list: Vec::new(),
            sub_screen: SubScreen::MemorySearch,
            map_selected: None,
            search_selected: None,
            ui_msg: None,
            new_value: String::new(),
        }
    }

    /// A scan of the regions marked for search for the bytes of the search
    /// text.
    pub fn start_search(&self) -> (r: MemorySearch)
        ensures
            r.wf(),
            r.pattern@ == encode_utf8(self.search_string@),
            r.pattern@.len() > 0 ==> r.regions@ == searchable(self.task_mem.maps@),
            r.next_region == 0,
            !r.reading_values,
            r.found@.len() == 0,
    {
        MemorySearch::new(&self.task_mem.maps, self.search_string.as_str().as_bytes())
    }

    /// Takes a finished scan: its locations replace the results as a whole,
    /// the result selection is cleared and the status gives their number.
    /// A scan whose locations no longer lie in the listed regions (the list
    /// was replaced meanwhile) leaves no results and says so.
    pub fn search_memory(&mut self, scan: MemorySearch)
        requires
            old(self).wf(),
        ensures
            final(self).wf(),
            (forall|k: int|
                0 <= k < scan.found@.len() ==> location_in(
                    old(self).task_mem.maps@,
                    #[trigger] scan.found@[k],
                )) ==> {
                &&& final(self).search_list@ == scan.found@
                &&& final(self).ui_msg matches Some(m) && m@ == "Found "@ + dec_text(
                    scan.found@.len(),
                ) + " occurrences!"@
            },
            !(forall|k: int|
                0 <= k < scan.found@.len() ==> location_in(
                    old(self).task_mem.maps@,
                    #[trigger] scan.found@[k],
                )) ==> {
                &&& final(self).search_list@.len() == 0
                &&& final(self).ui_msg matches Some(m) && m@ == "The region list changed during the search"@
            },
            *final(self) == (MemoryEditor {
                search_list: final(self).search_list,
                search_selected: None,
                ui_msg: final(self).ui_msg,
                ..*old(self)
            }),
    {
        if self.all_fit(&scan.found) {
            let n = scan.found.len();
            self.search_list = scan.found;
            self.ui_msg = Some(with_count("Found ", n, " occurrences!"));
        } else {
            self.search_list = Vec::new();
            self.ui_msg = Some("The region list changed during the search".to_string());
        }
        self.search_selected = None;
    }

    /// Takes the outcome of writing the edited value: the status says
    /// whether it was written; nothing else changes.
    pub fn edit_memory(&mut self, outcome: Result<(), MemoryError>)
        requires
            old(self).wf(),
        ensures
            final(self).wf(),
            final(self).ui_msg matches Some(m) && m@ == match outcome {
                Ok(_) => "Written!"@,
                Err(e) => error_text(e),
            },
            *final(self) == (MemoryEditor { ui_msg: final(self).ui_msg, ..*old(self) }),
    {
        let msg = match outcome {
            Ok(_) => "Written!".to_string(),
            Err(e) => e.message(),
        };
        self.ui_msg = Some(msg);
    }
}

/// The whole session: the task list, the memory editor, and which screen
/// is shown.
#[derive(Debug)]
pub struct Kunai {
    pub tasks: TaskSelection,
    pub memedit: MemoryEditor,
    pub current_screen: CurrentScreen,
    pub ui_msg: Option<String>,
}

/// The region list with region `i` marked for search where it was not, and
/// unmarked where it was.
pub open spec fn toggled(maps: Seq<MemoryMap>, i: int) -> Seq<MemoryMap> {
    maps.update(i, MemoryMap { should_search: !maps[i].should_search, ..maps[i] })
}

impl Kunai {
    pub open spec fn wf(&self) -> bool {
        self.tasks.wf() && self.memedit.wf()
    }

    /// The state of the transition table that the screens make up.
    pub open spec fn state_spec(&self) -> SessionState {
        if self.current_screen == CurrentScreen::TaskSelectionScreen {
            SessionState::TaskSelect
        } else {
            match self.memedit.sub_screen {
                SubScreen::MemoryMaps => SessionState::MapList,
                SubScreen::MemorySearch => SessionState::Search,
                SubScreen::ValueEditing => SessionState::ValueEdit,
            }
        }
    }

    /// The state of the session.
    pub fn state(&self) -> (r: SessionState)
        ensures
            r == self.state_spec(),
    {
        match self.current_screen {
            CurrentScreen::TaskSelectionScreen => SessionState::TaskSelect,
            CurrentScreen::MemoryEditingScreen => match self.memedit.sub_screen {
                SubScreen::MemoryMaps => SessionState::MapList,
                SubScreen::MemorySearch => SessionState::Search,
                SubScreen::ValueEditing => SessionState::ValueEdit,
            },
        }
    }

    /// A session on the (empty) task list.
    pub fn new() -> (r: Kunai)
        ensures
            r.wf(),
            r.state_spec() == SessionState::TaskSelect,
            r.tasks.task_list@.len() == 0,
            r.tasks.selected is None,
            !r.tasks.name_search,
            !r.tasks.pid_search,
            r.tasks.search_string@.len() == 0,
            r.tasks.filtered_task_list is None,
            r.tasks.ui_msg is None,
            r.memedit.task_mem.maps@.len() == 0,
            r.memedit.search_list@.len() == 0,
            r.memedit.search_string@.len() == 0,
            r.memedit.new_value@.len() == 0,
            r.memedit.sub_screen == SubScreen::MemorySearch,
            r.memedit.map_selected is None,
            r.memedit.search_selected is None,
            r.memedit.ui_msg is None,
            r.ui_msg is None,
    {
        Kunai {
            tasks: TaskSelection::new(),
            memedit: MemoryEditor::new(),
            current_screen: CurrentScreen::TaskSelectionScreen,
            ui_msg: None,
        }
    }

    /// Opens the memory editor on the listed task at `index` and returns its
    /// pid, whose region table is to be loaded: the regions and results of
    /// any earlier task are dropped and both selections cleared. An index
    /// past the list changes nothing.
    pub fn select_task(&mut self, index: usize) -> (r: Option<String>)
        requires
            old(self).wf(),
        ensures
            final(self).wf(),
            index >= old(self).tasks.visible_len_spec() ==> r is None && *final(self) == *old(self),
            index < old(self).tasks.visible_len_spec() ==> {
                let t = old(self).tasks.visible_at(index as int);
                &&& r == Some(t.pid)
                &&& final(self).memedit.task == t
                &&& final(self).memedit.task_mem.maps@.len() == 0
                &&& final(self).memedit.search_list@.len() == 0
                &&& *final(self) == (Kunai {
                    memedit: MemoryEditor {
                        task: final(self).memedit.task,
                        task_mem: final(self).memedit.task_mem,
                        search_list: final(self).memedit.search_list,
                        sub_screen: SubScreen::MemorySearch,
                        map_selected: None,
                        search_selected: None,
                        ui_msg: None,
                        ..old(self).memedit
                    },
                    current_screen: CurrentScreen::MemoryEditingScreen,
                    ..*old(self)
                })
            },
    {
        if index >= self.tasks.visible_len() {
            return None;
        }
        let task = self.tasks.visible_task(index).clone();
        let pid = task.pid.clone();
        self.memedit.task = task;
        self.memedit.task_mem = TaskMemory::new();
        self.memedit.search_list = Vec::new();
        self.memedit.sub_screen = SubScreen::MemorySearch;
        self.memedit.map_selected = None;
        self.memedit.search_selected = None;
        self.memedit.ui_msg = None;
        self.current_screen = CurrentScreen::MemoryEditingScreen;
        Some(pid)
    }

    /// Takes the region table of the selected task (`None` where it could not
    /// be read): its regions replace the list, the results and selections
    /// are cleared, and a table that could not be read leaves the list empty
    /// and says so in the status.
    pub fn map_loaded(&mut self, table: Option<Vec<u8>>)
        requires
            old(self).wf(),
        ensures
            final(self).wf(),
            match table {
                Some(t) => crate::maps::entries(final(self).memedit.task_mem.maps@)
                    == crate::maps::parse_table(t@),
                None => final(self).memedit.task_mem.maps@.len() == 0,
            },
            forall|k: int|
                0 <= k < final(self).memedit.task_mem.maps@.len()
                    ==> (#[trigger] final(self).memedit.task_mem.maps@[k]).should_search,
            table is None ==> (final(self).memedit.ui_msg matches Some(m) && m@
                == "Cannot read the task's memory map"@),
            table is Some ==> final(self).memedit.ui_msg == old(self).memedit.ui_msg,
            final(self).memedit.search_list@.len() == 0,
            *final(self) == (Kunai {
                memedit: MemoryEditor {
                    task_mem: final(self).memedit.task_mem,
                    search_list: final(self).memedit.search_list,
                    map_selected: None,
                    search_selected: None,
                    ui_msg: final(self).memedit.ui_msg,
                    ..old(self).memedit
                },
                ..*old(self)
            }),
    {
        match &table {
            Some(t) => self.memedit.task_mem.populate_info(Some(t.as_slice())),
            None => {
                self.memedit.task_mem.populate_info(None);
                self.memedit.ui_msg = Some("Cannot read the task's memory map".to_string());
            },
        }
        self.memedit.search_list = Vec::new();
        self.memedit.map_selected = None;
        self.memedit.search_selected = None;
    }

    /// Takes a finished scan, as `MemoryEditor::search_memory` does. A scan
    /// started on the current region list always fits it, so its locations
    /// become the results.
    pub fn search_done(&mut self, scan: MemorySearch)
        requires
            old(self).wf(),
        ensures
            final(self).wf(),
            scan.wf() && scan.regions@ == searchable(old(self).memedit.task_mem.maps@) ==> {
                &&& final(self).memedit.search_list@ == scan.found@
                &&& final(self).memedit.ui_msg matches Some(m) && m@ == "Found "@ + dec_text(
                    scan.found@.len(),
                ) + " occurrences!"@
            },
            (forall|k: int|
                0 <= k < scan.found@.len() ==> location_in(
                    old(self).memedit.task_mem.maps@,
                    #[trigger] scan.found@[k],
                )) ==> final(self).memedit.search_list@ == scan.found@,
            !(forall|k: int|
                0 <= k < scan.found@.len() ==> location_in(
                    old(self).memedit.task_mem.maps@,
                    #[trigger] scan.found@[k],
                )) ==> {
                &&& final(self).memedit.search_list@.len() == 0
                &&& final(self).memedit.ui_msg matches Some(m) && m@
                    == "The region list changed during the search"@
            },
            final(self).memedit.search_selected is None,
            *final(self) == (Kunai {
                memedit: MemoryEditor {
                    search_list: final(self).memedit.search_list,
                    search_selected: None,
                    ui_msg: final(self).memedit.ui_msg,
                    ..old(self).memedit
                },
                ..*old(self)
            }),
    {
        let _ = self.memedit.task_mem.maps.len();
        proof {
            if scan.wf() && scan.regions@ == searchable(self.memedit.task_mem.maps@) {
                lemma_searchable_bounds(self.memedit.task_mem.maps@, self.memedit.task_mem.maps@.len() as int);
                assert forall|k: int| 0 <= k < scan.found@.len() implies location_in(
                    self.memedit.task_mem.maps@,
                    #[trigger] scan.found@[k],
                ) by {
                    assert(scan.location_ok(scan.found@[k]));
                }
            }
        }
        self.memedit.search_memory(scan);
    }

    /// Takes the outcome of a value write, as `MemoryEditor::edit_memory`
    /// does.
    pub fn write_done(&mut self, outcome: Result<(), MemoryError>)
        requires
            old(self).wf(),
        ensures
            final(self).wf(),
            final(self).memedit.ui_msg matches Some(m) && m@ == match outcome {
                Ok(_) => "Written!"@,
                Err(e) => error_text(e),
            },
            *final(self) == (Kunai {
                memedit: MemoryEditor { ui_msg: final(self).memedit.ui_msg, ..old(self).memedit },
                ..*old(self)
            }),
    {
        self.memedit.edit_memory(outcome);
    }
}

/// The session after a command in the task list: moves and filter edits
/// change the task list only; submitting opens the selected task; escape
/// leaves filtering, or else ends the session.
pub open spec fn task_select_step(pre: Kunai, post: Kunai, cmd: Command, eff: Effect) -> bool {
    let filtering = pre.tasks.name_search || pre.tasks.pid_search;
    let only_tasks = post == Kunai { tasks: post.tasks, ..pre };
    let filter_edit = {
        &&& only_tasks
        &&& eff is Nothing
        &&& post.tasks.selected is None
        &&& post.tasks.task_list == pre.tasks.task_list
        &&& post.tasks.name_search == pre.tasks.name_search
        &&& post.tasks.pid_search == pre.tasks.pid_search
        &&& post.tasks.ui_msg == pre.tasks.ui_msg
    };
    match cmd {
        Command::Up => eff is Nothing && post == Kunai {
            tasks: TaskSelection {
                selected: index_up(pre.tasks.selected, pre.tasks.visible_len_spec()),
                ..pre.tasks
            },
            ..pre
        },
        Command::Down => eff is Nothing && post == Kunai {
            tasks: TaskSelection {
                selected: index_down(pre.tasks.selected, pre.tasks.visible_len_spec()),
                ..pre.tasks
            },
            ..pre
        },
        Command::Type(c) => if filtering {
            filter_edit && post.tasks.search_string@ == pre.tasks.search_string@.push(c)
        } else {
            eff is Nothing && post == pre
        },
        Command::Backspace => if filtering {
            &&& filter_edit
            &&& pre.tasks.search_string@.len() > 0 ==> post.tasks.search_string@
                == pre.tasks.search_string@.drop_last()
            &&& pre.tasks.search_string@.len() == 0 ==> post.tasks.search_string@
                == pre.tasks.search_string@
        } else {
            eff is Nothing && post == pre
        },
        Command::FilterByName => {
            &&& only_tasks
            &&& eff is Nothing
            &&& post.tasks.name_search && !post.tasks.pid_search
            &&& post.tasks.selected is None
            &&& post.tasks.task_list == pre.tasks.task_list
            &&& post.tasks.search_string == pre.tasks.search_string
            &&& post.tasks.ui_msg == pre.tasks.ui_msg
        },
        Command::FilterByPid => {
            &&& only_tasks
            &&& eff is Nothing
            &&& post.tasks.pid_search && !post.tasks.name_search
            &&& post.tasks.selected is None
            &&& post.tasks.task_list == pre.tasks.task_list
            &&& post.tasks.search_string == pre.tasks.search_string
            &&& post.tasks.ui_msg == pre.tasks.ui_msg
        },
        Command::Escape => if filtering {
            &&& only_tasks
            &&& eff is Nothing
            &&& !post.tasks.name_search && !post.tasks.pid_search
            &&& post.tasks.search_string == pre.tasks.search_string
            &&& post.tasks.filtered_task_list is None
            &&& post.tasks.selected is None
            &&& post.tasks.task_list == pre.tasks.task_list
            &&& post.tasks.ui_msg == pre.tasks.ui_msg
        } else {
            eff is Quit && post == pre
        },
        Command::Submit => match pre.tasks.selected {
            Some(i) => {
                let t = pre.tasks.visible_at(i as int);
                &&& eff matches Effect::LoadMap(pid) && pid == t.pid
                &&& post.memedit.task == t
                &&& post.memedit.task_mem.maps@.len() == 0
                &&& post.memedit.search_list@.len() == 0
                &&& post == Kunai {
                    memedit: MemoryEditor {
                        task: post.memedit.task,
                        task_mem: post.memedit.task_mem,
                        search_list: post.memedit.search_list,
                        sub_screen: SubScreen::MemorySearch,
                        map_selected: None,
                        search_selected: None,
                        ui_msg: None,
                        ..pre.memedit
                    },
                    current_screen: CurrentScreen::MemoryEditingScreen,
                    ..pre
                }
            },
            None => eff is Nothing && post == pre,
        },
        Command::Refresh => eff is LoadTasks && post == pre,
        _ => eff is Nothing && post == pre,
    }
}

/// `post` is `pre` with only the memory editor's part shown changed to `s`.
pub open spec fn shows(pre: Kunai, post: Kunai, s: SubScreen) -> bool {
    post == Kunai { memedit: MemoryEditor { sub_screen: s, ..pre.memedit }, ..pre }
}

/// The session after a command in the search: typing edits the search
/// text, submitting starts a scan, the selected result can be opened in the
/// value editor, and escape goes back to the task list.
pub open spec fn search_step(pre: Kunai, post: Kunai, cmd: Command, eff: Effect) -> bool {
    let m = pre.memedit;
    match cmd {
        Command::ToggleMaps => eff is Nothing && shows(pre, post, SubScreen::MemoryMaps),
        Command::Type(c) => {
            &&& eff is Nothing
            &&& post.memedit.search_string@ == m.search_string@.push(c)
            &&& post == Kunai {
                memedit: MemoryEditor { search_string: post.memedit.search_string, ..m },
                ..pre
            }
        },
        Command::Backspace => {
            &&& eff is Nothing
            &&& m.search_string@.len() > 0 ==> post.memedit.search_string@
                == m.search_string@.drop_last()
            &&& m.search_string@.len() == 0 ==> post.memedit.search_string@ == m.search_string@
            &&& post == Kunai {
                memedit: MemoryEditor { search_string: post.memedit.search_string, ..m },
                ..pre
            }
        },
        Command::Submit => {
            &&& eff matches Effect::Scan(s) && {
                &&& s.wf()
                &&& s.pattern@ == encode_utf8(m.search_string@)
                &&& s.pattern@.len() > 0 ==> s.regions@ == searchable(m.task_mem.maps@)
                &&& s.next_region == 0
                &&& !s.reading_values
                &&& s.found@.len() == 0
            }
            &&& post == Kunai { memedit: MemoryEditor { search_selected: None, ..m }, ..pre }
        },
        Command::OpenEditor => match m.search_selected {
            Some(i) => {
                &&& eff is Nothing
                &&& post.memedit.new_value == m.search_list@[i as int].value
                &&& post == Kunai {
                    memedit: MemoryEditor {
                        new_value: post.memedit.new_value,
                        sub_screen: SubScreen::ValueEditing,
                        ..m
                    },
                    ..pre
                }
            },
            None => eff is Nothing && post == pre,
        },
        Command::Up => eff is Nothing && post == Kunai {
            memedit: MemoryEditor {
                search_selected: index_up(m.search_selected, m.search_list@.len()),
                ..m
            },
            ..pre
        },
        Command::Down => eff is Nothing && post == Kunai {
            memedit: MemoryEditor {
                search_selected: index_down(m.search_selected, m.search_list@.len()),
                ..m
            },
            ..pre
        },
        Command::Escape => eff is Nothing && post == Kunai {
            current_screen: CurrentScreen::TaskSelectionScreen,
            ..pre
        },
        _ => eff is Nothing && post == pre,
    }
}

/// The session after a command in the region list: moves select a region,
/// submitting marks the selected region for search or unmarks it, and
/// toggling or escape goes back to the search.
pub open spec fn map_list_step(pre: Kunai, post: Kunai, cmd: Command, eff: Effect) -> bool {
    let m = pre.memedit;
    match cmd {
        Command::ToggleMaps => eff is Nothing && shows(pre, post, SubScreen::MemorySearch),
        Command::Escape => eff is Nothing && shows(pre, post, SubScreen::MemorySearch),
        Command::Up => eff is Nothing && post == Kunai {
            memedit: MemoryEditor {
                map_selected: index_up(m.map_selected, m.task_mem.maps@.len()),
                ..m
            },
            ..pre
        },
        Command::Down => eff is Nothing && post == Kunai {
            memedit: MemoryEditor {
                map_selected: index_down(m.map_selected, m.task_mem.maps@.len()),
                ..m
            },
            ..pre
        },
        Command::Submit => match m.map_selected {
            Some(i) => {
                &&& eff is Nothing
                &&& post.memedit.task_mem.maps@ == toggled(m.task_mem.maps@, i as int)
                &&& post == Kunai {
                    memedit: MemoryEditor { task_mem: post.memedit.task_mem, ..m },
                    ..pre
                }
            },
            None => eff is Nothing && post == pre,
        },
        _ => eff is Nothing && post == pre,
    }
}

/// The session after a command in the value editor: typing edits the new
/// value, submitting asks for it to be written over the selected result
/// (its UTF-8 bytes, whatever the length of the value found), and every way
/// out goes back to the search.
pub open spec fn value_edit_step(pre: Kunai, post: Kunai, cmd: Command, eff: Effect) -> bool {
    let m = pre.memedit;
    match cmd {
        Command::Type(c) => {
            &&& eff is Nothing
            &&& post.memedit.new_value@ == m.new_value@.push(c)
            &&& post == Kunai { memedit: MemoryEditor { new_value: post.memedit.new_value, ..m }, ..pre }
        },
        Command::Backspace => {
            &&& eff is Nothing
            &&& m.new_value@.len() > 0 ==> post.memedit.new_value@ == m.new_value@.drop_last()
            &&& m.new_value@.len() == 0 ==> post.memedit.new_value@ == m.new_value@
            &&& post == Kunai { memedit: MemoryEditor { new_value: post.memedit.new_value, ..m }, ..pre }
        },
        Command::Submit => match m.search_selected {
            Some(i) => {
                &&& eff matches Effect::Write(addr, bytes) && addr == m.search_list@[i as int].start
                    && bytes@ == encode_utf8(m.new_value@)
                &&& shows(pre, post, SubScreen::MemorySearch)
            },
            None => {
                &&& eff is Nothing
                &&& post.memedit.ui_msg matches Some(msg) && msg@ == "Invalid memory address"@
                &&& post == Kunai {
                    memedit: MemoryEditor {
                        sub_screen: SubScreen::MemorySearch,
                        ui_msg: post.memedit.ui_msg,
                        ..m
                    },
                    ..pre
                }
            },
        },
        Command::Escape => eff is Nothing && shows(pre, post, SubScreen::MemorySearch),
        Command::ToggleMaps => eff is Nothing && shows(pre, post, SubScreen::MemorySearch),
        _ => eff is Nothing && post == pre,
    }
}

/// The transition table of the session.
pub open spec fn transition(pre: Kunai, post: Kunai, cmd: Command, eff: Effect) -> bool {
    match pre.state_spec() {
        SessionState::TaskSelect => task_select_step(pre, post, cmd, eff),
        SessionState::Search => search_step(pre, post, cmd, eff),
        SessionState::MapList => map_list_step(pre, post, cmd, eff),
        SessionState::ValueEdit => value_edit_step(pre, post, cmd, eff),
    }
}

impl Kunai {
    /// Carries out one command, as the transition table says, and returns
    /// what the caller is to do for it.
    pub fn handle(&mut self, cmd: Command) -> (eff: Effect)
        requires
            old(self).wf(),
        ensures
            final(self).wf(),
            transition(*old(self), *final(self), cmd, eff),
    {
        match self.state() {
            SessionState::TaskSelect => self.handle_task_select(cmd),
            SessionState::Search => self.handle_search(cmd),
            SessionState::MapList => self.handle_map_list(cmd),
            SessionState::ValueEdit => self.handle_value_edit(cmd),
        }
    }

    fn handle_task_select(&mut self, cmd: Command) -> (eff: Effect)
        requires
            old(self).wf(),
            old(self).state_spec() == SessionState::TaskSelect,
        ensures
            final(self).wf(),
            task_select_step(*old(self), *final(self), cmd, eff),
    {
        let filtering = self.tasks.name_search || self.tasks.pid_search;
        match cmd {
            Command::Up => {
                self.tasks.decrement_index();
                Effect::Nothing
            },
            Command::Down => {
                self.tasks.increment_index();
                Effect::Nothing
            },
            Command::Type(c) => {
                if filtering {
                    self.tasks.push_search_char(c);
                }
                Effect::Nothing
            },
            Command::Backspace => {
                if filtering {
                    self.tasks.pop_search_char();
                }
                Effect::Nothing
            },
            Command::FilterByName => {
                self.tasks.start_name_search();
                Effect::Nothing
            },
            Command::FilterByPid => {
                self.tasks.start_pid_search();
                Effect::Nothing
            },
            Command::Escape => {
                if filtering {
                    self.tasks.stop_search();
                    Effect::Nothing
                } else {
                    Effect::Quit
                }
            },
            Command::Submit => match self.tasks.selected {
                Some(i) => match self.select_task(i) {
                    Some(pid) => Effect::LoadMap(pid),
                    None => Effect::Nothing,
                },
                None => Effect::Nothing,
            },
            Command::Refresh => Effect::LoadTasks,
            _ => Effect::Nothing,
        }
    }

    fn handle_search(&mut self, cmd: Command) -> (eff: Effect)
        requires
            old(self).wf(),
            old(self).state_spec() == SessionState::Search,
        ensures
            final(self).wf(),
            search_step(*old(self), *final(self), cmd, eff),
    {
        match cmd {
            Command::ToggleMaps => {
                self.memedit.sub_screen = SubScreen::MemoryMaps;
                Effect::Nothing
            },
            Command::Type(c) => {
                push_char(&mut self.memedit.search_string, c);
                Effect::Nothing
            },
            Command::Backspace => {
                let _ = pop_char(&mut self.memedit.search_string);
                Effect::Nothing
            },
            Command::Submit => {
                self.memedit.search_selected = None;
                Effect::Scan(self.memedit.start_search())
            },
            Command::OpenEditor => {
                match self.memedit.search_selected {
                    Some(i) => {
                        self.memedit.new_value = self.memedit.search_list[i].value.clone();
                        self.memedit.sub_screen = SubScreen::ValueEditing;
                    },
                    None => {},
                }
                Effect::Nothing
            },
            Command::Up => {
                self.memedit.search_selected = index_up_exec(
                    self.memedit.search_selected,
                    self.memedit.search_list.len(),
                );
                Effect::Nothing
            },
            Command::Down => {
                self.memedit.search_selected = index_down_exec(
                    self.memedit.search_selected,
                    self.memedit.search_list.len(),
                );
                Effect::Nothing
            },
            Command::Escape => {
                self.current_screen = CurrentScreen::TaskSelectionScreen;
                Effect::Nothing
            },
            _ => Effect::Nothing,
        }
    }

    fn handle_map_list(&mut self, cmd: Command) -> (eff: Effect)
        requires
            old(self).wf(),
            old(self).state_spec() == SessionState::MapList,
        ensures
            final(self).wf(),
            map_list_step(*old(self), *final(self), cmd, eff),
    {
        match cmd {
            Command::ToggleMaps | Command::Escape => {
                self.memedit.sub_screen = SubScreen::MemorySearch;
                Effect::Nothing
            },
            Command::Up => {
                self.memedit.map_selected = index_up_exec(
                    self.memedit.map_selected,
                    self.memedit.task_mem.maps.len(),
                );
                Effect::Nothing
            },
            Command::Down => {
                self.memedit.map_selected = index_down_exec(
                    self.memedit.map_selected,
                    self.memedit.task_mem.maps.len(),
                );
                Effect::Nothing
            },
            Command::Submit => {
                match self.memedit.map_selected {
                    Some(i) => {
                        let m = &self.memedit.task_mem.maps[i];
                        let region = MemoryMap {
                            start: m.start,
                            end: m.end,
                            perms: m.perms.clone(),
                            name: m.name.clone(),
                            should_search: !m.should_search,
                        };
                        self.memedit.task_mem.maps.set(i, region);
                        assert(self.memedit.task_mem.maps@ =~= toggled(old(self).memedit.task_mem.maps@, i as int));
                    },
                    None => {},
                }
                Effect::Nothing
            },
            _ => Effect::Nothing,
        }
    }

    fn handle_value_edit(&mut self, cmd: Command) -> (eff: Effect)
        requires
            old(self).wf(),
            old(self).state_spec() == SessionState::ValueEdit,
        ensures
            final(self).wf(),
            value_edit_step(*old(self), *final(self), cmd, eff),
    {
        match cmd {
            Command::Type(c) => {
                push_char(&mut self.memedit.new_value, c);
                Effect::Nothing
            },
            Command::Backspace => {
                let _ = pop_char(&mut self.memedit.new_value);
                Effect::Nothing
            },
            Command::Submit => {
                self.memedit.sub_screen = SubScreen::MemorySearch;
                match self.memedit.search_selected {
                    Some(i) => {
                        let bytes = vstd::slice::slice_to_vec(self.memedit.new_value.as_str().as_bytes());
                        Effect::Write(self.memedit.search_list[i].start, bytes)
                    },
                    None => {
                        self.memedit.ui_msg = Some("Invalid memory address".to_string());
                        Effect::Nothing
                    },
                }
            },
            Command::Escape | Command::ToggleMaps => {
                self.memedit.sub_screen = SubScreen::MemorySearch;
                Effect::Nothing
            },
            _ => Effect::Nothing,
        }
    }
}

} // verus!
