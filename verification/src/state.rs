//! The keyboard-driven application state: which screen is shown, what is
//! selected and scrolled where, the active filters and queries, and how each
//! navigation step moves them. All input and drawing live outside; every
//! transition here is a pure, verified step from state to state.
use vstd::prelude::*;
use crate::models::{
    ProjectInfo, SessionInfo, Message, SearchResult, TimeFilter, spec_filter_next,
    spec_filter_prev, clone_projects, clone_search_results,
};
use crate::search::{
    filter_projects, filter_sessions, global_filter, spec_filter_projects, spec_filter_sessions,
    spec_global_filter, lower_of,
};
use crate::strutil::{push_char, str_chars, chars_to_string};
use crate::time::now_millis;

verus! {

#[derive(Debug, Clone, Copy, PartialEq, Eq, Structural)]
pub enum Screen {
    ProjectList,
    SessionList,
    SessionDetail,
    GlobalSearch,
}

/// The whole interactive state.
pub struct App {
    pub screen: Screen,
    pub projects: Vec<ProjectInfo>,
    pub displayed_projects: Vec<ProjectInfo>,
    pub sessions: Vec<SessionInfo>,
    pub filtered_sessions: Vec<SessionInfo>,
    pub messages: Vec<Message>,
    pub selected_project: usize,
    pub selected_session: usize,
    pub scroll_offset: usize,
    pub time_filter: TimeFilter,
    pub current_project_name: String,
    pub should_quit: bool,
    pub terminal_height: usize,
    pub search_active: bool,
    pub search_query: String,
    pub global_search_results: Vec<SearchResult>,
    pub global_search_filtered: Vec<SearchResult>,
    pub global_search_query: String,
    pub global_search_selected: usize,
    pub project_scroll_offset: usize,
    pub session_scroll_offset: usize,
    pub global_search_scroll_offset: usize,
}

/// The scroll offset that keeps the selection visible in a window of
/// `visible_height` rows.
pub open spec fn spec_ensure_visible(selected: int, offset: int, visible_height: int) -> int {
    if visible_height == 0 {
        offset
    } else if selected < offset {
        selected
    } else if selected >= offset + visible_height {
        selected - visible_height + 1
    } else {
        offset
    }
}

/// Scroll just far enough that the selected row is on screen.
pub fn ensure_visible(selected: usize, scroll_offset: &mut usize, visible_height: usize)
    ensures
        *final(scroll_offset) as int == spec_ensure_visible(
            selected as int,
            *old(scroll_offset) as int,
            visible_height as int,
        ),
{
    if visible_height == 0 {
        return ;
    }
    if selected < *scroll_offset {
        *scroll_offset = selected;
    } else if selected >= visible_height && selected - visible_height >= *scroll_offset {
        *scroll_offset = selected - visible_height + 1;
    }
}

/// `a + b`, clamped at the top of `usize`.
pub open spec fn spec_sat_add_usize(a: int, b: int) -> int {
    if a + b > usize::MAX as int {
        usize::MAX as int
    } else {
        a + b
    }
}

pub open spec fn spec_sat_sub_usize(a: int, b: int) -> int {
    if a >= b {
        a - b
    } else {
        0
    }
}

/// The visible row count of the current table, and the state with its scroll
/// offset pulled to the selection.
pub open spec fn spec_table_scroll(a: App) -> App {
    let th = a.terminal_height as int;
    match a.screen {
        Screen::ProjectList => App {
            project_scroll_offset: spec_ensure_visible(
                a.selected_project as int,
                a.project_scroll_offset as int,
                spec_sat_sub_usize(th, 5),
            ) as usize,
            ..a
        },
        Screen::SessionList => App {
            session_scroll_offset: spec_ensure_visible(
                a.selected_session as int,
                a.session_scroll_offset as int,
                spec_sat_sub_usize(th, 7),
            ) as usize,
            ..a
        },
        Screen::GlobalSearch => App {
            global_search_scroll_offset: spec_ensure_visible(
                a.global_search_selected as int,
                a.global_search_scroll_offset as int,
                spec_sat_sub_usize(th, 6),
            ) as usize,
            ..a
        },
        Screen::SessionDetail => a,
    }
}

/// One step up: the selection or scroll of the current screen, stopped at 0.
pub open spec fn spec_navigate_up(a: App) -> App {
    let moved = match a.screen {
        Screen::ProjectList => if a.selected_project > 0 {
            App { selected_project: (a.selected_project - 1) as usize, ..a }
        } else {
            a
        },
        Screen::SessionList => if a.selected_session > 0 {
            App { selected_session: (a.selected_session - 1) as usize, ..a }
        } else {
            a
        },
        Screen::SessionDetail => if a.scroll_offset > 0 {
            App { scroll_offset: (a.scroll_offset - 1) as usize, ..a }
        } else {
            a
        },
        Screen::GlobalSearch => if a.global_search_selected > 0 {
            App { global_search_selected: (a.global_search_selected - 1) as usize, ..a }
        } else {
            a
        },
    };
    spec_table_scroll(moved)
}

/// One step down: the selection stopped at the end of its list, the detail
/// scroll unbounded.
pub open spec fn spec_navigate_down(a: App) -> App {
    let moved = match a.screen {
        Screen::ProjectList => if a.displayed_projects@.len() > 0 && (a.selected_project as int)
            < a.displayed_projects@.len() - 1 {
            App { selected_project: (a.selected_project + 1) as usize, ..a }
        } else {
            a
        },
        Screen::SessionList => if a.filtered_sessions@.len() > 0 && (a.selected_session as int)
            < a.filtered_sessions@.len() - 1 {
            App { selected_session: (a.selected_session + 1) as usize, ..a }
        } else {
            a
        },
        Screen::SessionDetail => App {
            scroll_offset: spec_sat_add_usize(a.scroll_offset as int, 1) as usize,
            ..a
        },
        Screen::GlobalSearch => if a.global_search_filtered@.len() > 0 && (
        a.global_search_selected as int) < a.global_search_filtered@.len() - 1 {
            App { global_search_selected: (a.global_search_selected + 1) as usize, ..a }
        } else {
            a
        },
    };
    spec_table_scroll(moved)
}

/// Half a screen down, clamped to the end of the list.
pub open spec fn spec_half_page_down(a: App) -> App {
    let half = a.terminal_height as int / 2;
    let moved = match a.screen {
        Screen::ProjectList => if a.displayed_projects@.len() > 0 {
            let cap = a.displayed_projects@.len() - 1;
            let next = spec_sat_add_usize(a.selected_project as int, half);
            App { selected_project: (if next < cap { next } else { cap }) as usize, ..a }
        } else {
            a
        },
        Screen::SessionList => if a.filtered_sessions@.len() > 0 {
            let cap = a.filtered_sessions@.len() - 1;
            let next = spec_sat_add_usize(a.selected_session as int, half);
            App { selected_session: (if next < cap { next } else { cap }) as usize, ..a }
        } else {
            a
        },
        Screen::SessionDetail => App {
            scroll_offset: spec_sat_add_usize(a.scroll_offset as int, half) as usize,
            ..a
        },
        Screen::GlobalSearch => if a.global_search_filtered@.len() > 0 {
            let cap = a.global_search_filtered@.len() - 1;
            let next = spec_sat_add_usize(a.global_search_selected as int, half);
            App { global_search_selected: (if next < cap { next } else { cap }) as usize, ..a }
        } else {
            a
        },
    };
    spec_table_scroll(moved)
}

/// Half a screen up, stopped at 0.
pub open spec fn spec_half_page_up(a: App) -> App {
    let half = a.terminal_height as int / 2;
    let moved = match a.screen {
        Screen::ProjectList => App {
            selected_project: spec_sat_sub_usize(a.selected_project as int, half) as usize,
            ..a
        },
        Screen::SessionList => App {
            selected_session: spec_sat_sub_usize(a.selected_session as int, half) as usize,
            ..a
        },
        Screen::SessionDetail => App {
            scroll_offset: spec_sat_sub_usize(a.scroll_offset as int, half) as usize,
            ..a
        },
        Screen::GlobalSearch => App {
            global_search_selected: spec_sat_sub_usize(
                a.global_search_selected as int,
                half,
            ) as usize,
            ..a
        },
    };
    spec_table_scroll(moved)
}

fn sat_add_usize(a: usize, b: usize) -> (r: usize)
    ensures
        r as int == spec_sat_add_usize(a as int, b as int),
{
    if a <= usize::MAX - b {
        a + b
    } else {
        usize::MAX
    }
}

impl App {
    /// A fresh state showing the given project list.
    pub fn with_projects(projects: Vec<ProjectInfo>) -> (app: App)
        ensures
            app.screen == Screen::ProjectList,
            app.projects@ == projects@,
            app.displayed_projects@ == projects@,
            app.sessions@.len() == 0,
            app.filtered_sessions@.len() == 0,
            app.messages@.len() == 0,
            app.selected_project == 0,
            app.selected_session == 0,
            app.scroll_offset == 0,
            app.time_filter == TimeFilter::All,
            app.current_project_name@.len() == 0,
            app.should_quit == false,
            app.terminal_height == 24,
            app.search_active == false,
            app.search_query@.len() == 0,
            app.global_search_results@.len() == 0,
            app.global_search_filtered@.len() == 0,
            app.global_search_query@.len() == 0,
            app.global_search_selected == 0,
            app.project_scroll_offset == 0,
            app.session_scroll_offset == 0,
            app.global_search_scroll_offset == 0,
    {
        let displayed_projects = clone_projects(&projects);
        App {
            screen: Screen::ProjectList,
            projects,
            displayed_projects,
            sessions: Vec::new(),
            filtered_sessions: Vec::new(),
            messages: Vec::new(),
            selected_project: 0,
            selected_session: 0,
            scroll_offset: 0,
            time_filter: TimeFilter::All,
            current_project_name: String::new(),
            should_quit: false,
            terminal_height: 24,
            search_active: false,
            search_query: String::new(),
            global_search_results: Vec::new(),
            global_search_filtered: Vec::new(),
            global_search_query: String::new(),
            global_search_selected: 0,
            project_scroll_offset: 0,
            session_scroll_offset: 0,
            global_search_scroll_offset: 0,
        }
    }

    /// Recompute the filtered session list from the time filter and the
    /// search query, against the clock.
    pub fn apply_filter(&mut self)
        ensures
            (*final(self) == (App {
                filtered_sessions: final(self).filtered_sessions,
                ..*old(self)
            })),
            exists|now: i64|
                final(self).filtered_sessions@ == spec_filter_sessions(
                    old(self).sessions@,
                    old(self).time_filter,
                    old(self).search_query@,
                    now,
                ),
    {
        let now = now_millis();
        let f = filter_sessions(&self.sessions, self.time_filter, self.search_query.as_str(), now);
        proof {
            assert(f@ == spec_filter_sessions(
                self.sessions@,
                self.time_filter,
                self.search_query@,
                now,
            ));
        }
        self.filtered_sessions = f;
    }

    fn ensure_table_scroll(&mut self)
        ensures
            *final(self) == spec_table_scroll(*old(self)),
    {
        let th = self.terminal_height;
        match self.screen {
            Screen::ProjectList => {
                let vh = if th >= 5 {
                    th - 5
                } else {
                    0
                };
                let sel = self.selected_project;
                ensure_visible(sel, &mut self.project_scroll_offset, vh);
            },
            Screen::SessionList => {
                let vh = if th >= 7 {
                    th - 7
                } else {
                    0
                };
                let sel = self.selected_session;
                ensure_visible(sel, &mut self.session_scroll_offset, vh);
            },
            Screen::GlobalSearch => {
                let vh = if th >= 6 {
                    th - 6
                } else {
                    0
                };
                let sel = self.global_search_selected;
                ensure_visible(sel, &mut self.global_search_scroll_offset, vh);
            },
            Screen::SessionDetail => {},
        }
    }

    /// Show the given session list for the selected project; nothing happens
    /// when no project is selectable.
    pub fn enter_session_list(&mut self, sessions: Vec<SessionInfo>)
        ensures
            old(self).displayed_projects@.len() == 0 || old(self).selected_project >= old(self).displayed_projects@.len() ==> *final(self) == *old(self),
            old(self).selected_project < old(self).displayed_projects@.len() ==> {
                &&& (*final(self) == (App {
                    current_project_name: final(self).current_project_name,
                    search_query: final(self).search_query,
                    sessions: final(self).sessions,
                    filtered_sessions: final(self).filtered_sessions,
                    selected_session: 0,
                    session_scroll_offset: 0,
                    scroll_offset: 0,
                    screen: Screen::SessionList,
                    ..*old(self)
                }))
                &&& final(self).current_project_name@ == old(self).displayed_projects@[old(self).selected_project as int]@.dir_name
                &&& final(self).search_query@.len() == 0
                &&& final(self).sessions@ == sessions@
                &&& exists|now: i64|
                    final(self).filtered_sessions@ == spec_filter_sessions(
                        sessions@,
                        old(self).time_filter,
                        Seq::<char>::empty(),
                        now,
                    )
            },
    {
        if self.displayed_projects.len() == 0 || self.selected_project
            >= self.displayed_projects.len() {
            return ;
        }
        self.current_project_name = self.displayed_projects[self.selected_project].dir_name.clone();
        self.search_query = String::new();
        self.sessions = sessions;
        self.apply_filter();
        self.selected_session = 0;
        self.session_scroll_offset = 0;
        self.scroll_offset = 0;
        self.screen = Screen::SessionList;
    }

    /// Show the given transcript for the selected session; nothing happens
    /// when the session list is empty.
    pub fn enter_session_detail(&mut self, messages: Vec<Message>)
        ensures
            old(self).filtered_sessions@.len() == 0 ==> *final(self) == *old(self),
            old(self).filtered_sessions@.len() > 0 ==> (*final(self) == (App {
                messages: final(self).messages,
                scroll_offset: 0,
                screen: Screen::SessionDetail,
                ..*old(self)
            })) && final(self).messages@ == messages@,
    {
        if self.filtered_sessions.len() == 0 {
            return ;
        }
        self.messages = messages;
        self.scroll_offset = 0;
        self.screen = Screen::SessionDetail;
    }

    /// The directory name of the selected project, for loading its sessions.
    pub fn selected_project_dir(&self) -> (r: Option<String>)
        ensures
            match r {
                Some(d) => self.selected_project < self.displayed_projects@.len() && d@
                    == self.displayed_projects@[self.selected_project as int]@.dir_name,
                None => self.selected_project >= self.displayed_projects@.len(),
            },
    {
        if self.selected_project < self.displayed_projects.len() {
            Some(self.displayed_projects[self.selected_project].dir_name.clone())
        } else {
            None
        }
    }

    /// The id of the selected session, for loading its transcript.
    pub fn selected_session_id(&self) -> (r: Option<String>)
        ensures
            match r {
                Some(d) => self.selected_session < self.filtered_sessions@.len() && d@
                    == self.filtered_sessions@[self.selected_session as int]@.session_id,
                None => self.selected_session >= self.filtered_sessions@.len(),
            },
    {
        if self.selected_session < self.filtered_sessions.len() {
            Some(self.filtered_sessions[self.selected_session].session_id.clone())
        } else {
            None
        }
    }

    /// Step back one screen; on the project list, ask to quit. Any active
    /// search is cancelled.
    pub fn go_back(&mut self)
        ensures
            final(self).search_active == false,
            final(self).search_query@.len() == 0,
            old(self).screen == Screen::ProjectList ==> (*final(self) == (App {
                search_active: false,
                search_query: final(self).search_query,
                should_quit: true,
                ..*old(self)
            })),
            old(self).screen == Screen::SessionList ==> (*final(self) == (App {
                search_active: false,
                search_query: final(self).search_query,
                screen: Screen::ProjectList,
                selected_session: 0,
                session_scroll_offset: 0,
                scroll_offset: 0,
                displayed_projects: final(self).displayed_projects,
                ..*old(self)
            })) && final(self).displayed_projects@ == old(self).projects@,
            old(self).screen == Screen::SessionDetail ==> (*final(self) == (App {
                search_active: false,
                search_query: final(self).search_query,
                screen: Screen::SessionList,
                scroll_offset: 0,
                ..*old(self)
            })),
            old(self).screen == Screen::GlobalSearch ==> (*final(self) == (App {
                search_active: false,
                search_query: final(self).search_query,
                screen: Screen::ProjectList,
                global_search_query: final(self).global_search_query,
                global_search_selected: 0,
                global_search_scroll_offset: 0,
                ..*old(self)
            })) && final(self).global_search_query@.len() == 0,
    {
        self.search_active = false;
        self.search_query = String::new();
        match self.screen {
            Screen::ProjectList => {
                self.should_quit = true;
            },
            Screen::SessionList => {
                self.screen = Screen::ProjectList;
                self.selected_session = 0;
                self.session_scroll_offset = 0;
                self.scroll_offset = 0;
                self.displayed_projects = clone_projects(&self.projects);
            },
            Screen::SessionDetail => {
                self.screen = Screen::SessionList;
                self.scroll_offset = 0;
            },
            Screen::GlobalSearch => {
                self.screen = Screen::ProjectList;
                self.global_search_query = String::new();
                self.global_search_selected = 0;
                self.global_search_scroll_offset = 0;
            },
        }
    }

    pub fn navigate_up(&mut self)
        ensures
            *final(self) == spec_navigate_up(*old(self)),
    {
        match self.screen {
            Screen::ProjectList => {
                if self.selected_project > 0 {
                    self.selected_project = self.selected_project - 1;
                }
            },
            Screen::SessionList => {
                if self.selected_session > 0 {
                    self.selected_session = self.selected_session - 1;
                }
            },
            Screen::SessionDetail => {
                if self.scroll_offset > 0 {
                    self.scroll_offset = self.scroll_offset - 1;
                }
            },
            Screen::GlobalSearch => {
                if self.global_search_selected > 0 {
                    self.global_search_selected = self.global_search_selected - 1;
                }
            },
        }
        self.ensure_table_scroll();
    }

    pub fn navigate_down(&mut self)
        ensures
            *final(self) == spec_navigate_down(*old(self)),
    {
        match self.screen {
            Screen::ProjectList => {
                if self.displayed_projects.len() > 0 && self.selected_project
                    < self.displayed_projects.len() - 1 {
                    self.selected_project = self.selected_project + 1;
                }
            },
            Screen::SessionList => {
                if self.filtered_sessions.len() > 0 && self.selected_session
                    < self.filtered_sessions.len() - 1 {
                    self.selected_session = self.selected_session + 1;
                }
            },
            Screen::SessionDetail => {
                self.scroll_offset = sat_add_usize(self.scroll_offset, 1);
            },
            Screen::GlobalSearch => {
                if self.global_search_filtered.len() > 0 && self.global_search_selected
                    < self.global_search_filtered.len() - 1 {
                    self.global_search_selected = self.global_search_selected + 1;
                }
            },
        }
        self.ensure_table_scroll();
    }

    pub fn half_page_down(&mut self)
        ensures
            *final(self) == spec_half_page_down(*old(self)),
    {
        let half = self.terminal_height / 2;
        match self.screen {
            Screen::ProjectList => {
                if self.displayed_projects.len() > 0 {
                    let cap = self.displayed_projects.len() - 1;
                    let next = sat_add_usize(self.selected_project, half);
                    self.selected_project = if next < cap {
                        next
                    } else {
                        cap
                    };
                }
            },
            Screen::SessionList => {
                if self.filtered_sessions.len() > 0 {
                    let cap = self.filtered_sessions.len() - 1;
                    let next = sat_add_usize(self.selected_session, half);
                    self.selected_session = if next < cap {
                        next
                    } else {
                        cap
                    };
                }
            },
            Screen::SessionDetail => {
                self.scroll_offset = sat_add_usize(self.scroll_offset, half);
            },
            Screen::GlobalSearch => {
                if self.global_search_filtered.len() > 0 {
                    let cap = self.global_search_filtered.len() - 1;
                    let next = sat_add_usize(self.global_search_selected, half);
                    self.global_search_selected = if next < cap {
                        next
                    } else {
                        cap
                    };
                }
            },
        }
        self.ensure_table_scroll();
    }

    pub fn half_page_up(&mut self)
        ensures
            *final(self) == spec_half_page_up(*old(self)),
    {
        let half = self.terminal_height / 2;
        match self.screen {
            Screen::ProjectList => {
                self.selected_project = if self.selected_project >= half {
                    self.selected_project - half
                } else {
                    0
                };
            },
            Screen::SessionList => {
                self.selected_session = if self.selected_session >= half {
                    self.selected_session - half
                } else {
                    0
                };
            },
            Screen::SessionDetail => {
                self.scroll_offset = if self.scroll_offset >= half {
                    self.scroll_offset - half
                } else {
                    0
                };
            },
            Screen::GlobalSearch => {
                self.global_search_selected = if self.global_search_selected >= half {
                    self.global_search_selected - half
                } else {
                    0
                };
            },
        }
        self.ensure_table_scroll();
    }

    /// Step the time filter forward and refilter from the top.
    pub fn cycle_filter_next(&mut self)
        ensures
            (*final(self) == (App {
                time_filter: spec_filter_next(old(self).time_filter),
                filtered_sessions: final(self).filtered_sessions,
                selected_session: 0,
                session_scroll_offset: 0,
                ..*old(self)
            })),
            exists|now: i64|
                final(self).filtered_sessions@ == spec_filter_sessions(
                    old(self).sessions@,
                    spec_filter_next(old(self).time_filter),
                    old(self).search_query@,
                    now,
                ),
    {
        self.time_filter = self.time_filter.next();
        self.apply_filter();
        self.selected_session = 0;
        self.session_scroll_offset = 0;
    }

    /// Step the time filter backward and refilter from the top.
    pub fn cycle_filter_prev(&mut self)
        ensures
            (*final(self) == (App {
                time_filter: spec_filter_prev(old(self).time_filter),
                filtered_sessions: final(self).filtered_sessions,
                selected_session: 0,
                session_scroll_offset: 0,
                ..*old(self)
            })),
            exists|now: i64|
                final(self).filtered_sessions@ == spec_filter_sessions(
                    old(self).sessions@,
                    spec_filter_prev(old(self).time_filter),
                    old(self).search_query@,
                    now,
                ),
    {
        self.time_filter = self.time_filter.prev();
        self.apply_filter();
        self.selected_session = 0;
        self.session_scroll_offset = 0;
    }

    /// Jump to the top of the current list or transcript.
    pub fn go_to_top(&mut self)
        ensures
            old(self).screen == Screen::ProjectList ==> (*final(self) == (App {
                selected_project: 0,
                project_scroll_offset: 0,
                ..*old(self)
            })),
            old(self).screen == Screen::SessionList ==> (*final(self) == (App {
                selected_session: 0,
                session_scroll_offset: 0,
                ..*old(self)
            })),
            old(self).screen == Screen::SessionDetail ==> (*final(self) == (App {
                scroll_offset: 0,
                ..*old(self)
            })),
            old(self).screen == Screen::GlobalSearch ==> (*final(self) == (App {
                global_search_selected: 0,
                global_search_scroll_offset: 0,
                ..*old(self)
            })),
    {
        match self.screen {
            Screen::ProjectList => {
                self.selected_project = 0;
                self.project_scroll_offset = 0;
            },
            Screen::SessionList => {
                self.selected_session = 0;
                self.session_scroll_offset = 0;
            },
            Screen::SessionDetail => {
                self.scroll_offset = 0;
            },
            Screen::GlobalSearch => {
                self.global_search_selected = 0;
                self.global_search_scroll_offset = 0;
            },
        }
    }

    /// Show a session list loaded from outside.
    pub fn set_sessions(&mut self, sessions: Vec<SessionInfo>)
        ensures
            (*final(self) == (App {
                sessions: final(self).sessions,
                filtered_sessions: final(self).filtered_sessions,
                selected_session: 0,
                session_scroll_offset: 0,
                scroll_offset: 0,
                screen: Screen::SessionList,
                ..*old(self)
            })),
            final(self).sessions@ == sessions@,
            exists|now: i64|
                final(self).filtered_sessions@ == spec_filter_sessions(
                    sessions@,
                    old(self).time_filter,
                    old(self).search_query@,
                    now,
                ),
    {
        self.sessions = sessions;
        self.apply_filter();
        self.selected_session = 0;
        self.session_scroll_offset = 0;
        self.scroll_offset = 0;
        self.screen = Screen::SessionList;
    }

    /// Show a transcript loaded from outside.
    pub fn set_messages(&mut self, messages: Vec<Message>)
        ensures
            (*final(self) == (App {
                messages: final(self).messages,
                scroll_offset: 0,
                screen: Screen::SessionDetail,
                ..*old(self)
            })),
            final(self).messages@ == messages@,
    {
        self.messages = messages;
        self.scroll_offset = 0;
        self.screen = Screen::SessionDetail;
    }

    /// Jump to the bottom of the current list; the transcript scrolls to a
    /// large offset which the drawing clamps.
    pub fn go_to_bottom(&mut self)
        ensures
            old(self).screen == Screen::ProjectList ==> *final(self) == spec_table_scroll(
                if old(self).displayed_projects@.len() > 0 {
                    App {
                        selected_project: (old(self).displayed_projects@.len() - 1) as usize,
                        ..*old(self)
                    }
                } else {
                    *old(self)
                },
            ),
            old(self).screen == Screen::SessionList ==> *final(self) == spec_table_scroll(
                if old(self).filtered_sessions@.len() > 0 {
                    App {
                        selected_session: (old(self).filtered_sessions@.len() - 1) as usize,
                        ..*old(self)
                    }
                } else {
                    *old(self)
                },
            ),
            old(self).screen == Screen::SessionDetail ==> *final(self) == spec_table_scroll(
                App { scroll_offset: (usize::MAX / 2) as usize, ..*old(self) },
            ),
            old(self).screen == Screen::GlobalSearch ==> *final(self) == spec_table_scroll(
                if old(self).global_search_filtered@.len() > 0 {
                    App {
                        global_search_selected: (old(self).global_search_filtered@.len()
                            - 1) as usize,
                        ..*old(self)
                    }
                } else {
                    *old(self)
                },
            ),
    {
        match self.screen {
            Screen::ProjectList => {
                if self.displayed_projects.len() > 0 {
                    self.selected_project = self.displayed_projects.len() - 1;
                }
            },
            Screen::SessionList => {
                if self.filtered_sessions.len() > 0 {
                    self.selected_session = self.filtered_sessions.len() - 1;
                }
            },
            Screen::SessionDetail => {
                self.scroll_offset = usize::MAX / 2;
            },
            Screen::GlobalSearch => {
                if self.global_search_filtered.len() > 0 {
                    self.global_search_selected = self.global_search_filtered.len() - 1;
                }
            },
        }
        self.ensure_table_scroll();
    }

    /// Begin an incremental search, except on the transcript screen.
    pub fn start_search(&mut self)
        ensures
            old(self).screen == Screen::SessionDetail ==> *final(self) == *old(self),
            old(self).screen != Screen::SessionDetail ==> (*final(self) == (App {
                search_active: true,
                search_query: final(self).search_query,
                ..*old(self)
            })) && final(self).search_query@.len() == 0,
    {
        match self.screen {
            Screen::SessionDetail => {
                return ;
            },
            _ => {},
        }
        self.search_active = true;
        self.search_query = String::new();
    }

    /// Abandon the search and restore the unfiltered lists.
    pub fn cancel_search(&mut self)
        ensures
            (*final(self) == (App {
                search_active: false,
                search_query: final(self).search_query,
                displayed_projects: final(self).displayed_projects,
                filtered_sessions: final(self).filtered_sessions,
                selected_project: 0,
                project_scroll_offset: 0,
                session_scroll_offset: final(self).session_scroll_offset,
                ..*old(self)
            })),
            final(self).search_query@.len() == 0,
            final(self).displayed_projects@ == old(self).projects@,
    {
        self.search_active = false;
        self.search_query = String::new();
        self.apply_search();
        proof {
            crate::search::lemma_filter_projects_empty(old(self).projects@, Seq::<char>::empty());
        }
    }

    /// Keep the filtered lists and leave search mode.
    pub fn confirm_search(&mut self)
        ensures
            (*final(self) == (App { search_active: false, ..*old(self) })),
    {
        self.search_active = false;
    }

    /// Add one character to the search query and refilter.
    pub fn search_push(&mut self, ch: char)
        ensures
            (*final(self) == (App {
                search_query: final(self).search_query,
                displayed_projects: final(self).displayed_projects,
                filtered_sessions: final(self).filtered_sessions,
                selected_project: 0,
                project_scroll_offset: 0,
                session_scroll_offset: final(self).session_scroll_offset,
                ..*old(self)
            })),
            final(self).search_query@ == old(self).search_query@.push(ch),
            final(self).displayed_projects@ == spec_filter_projects(
                old(self).projects@,
                old(self).search_query@.push(ch),
            ),
    {
        push_char(&mut self.search_query, ch);
        assert(self.search_query@ =~= old(self).search_query@.push(ch));
        self.apply_search();
    }

    /// Drop the last character of the search query and refilter.
    pub fn search_pop(&mut self)
        ensures
            (*final(self) == (App {
                search_query: final(self).search_query,
                displayed_projects: final(self).displayed_projects,
                filtered_sessions: final(self).filtered_sessions,
                selected_project: 0,
                project_scroll_offset: 0,
                session_scroll_offset: final(self).session_scroll_offset,
                ..*old(self)
            })),
            final(self).search_query@ == (if old(self).search_query@.len() > 0 {
                old(self).search_query@.drop_last()
            } else {
                old(self).search_query@
            }),
            final(self).displayed_projects@ == spec_filter_projects(
                old(self).projects@,
                final(self).search_query@,
            ),
    {
        let chars = str_chars(self.search_query.as_str());
        let mut chars = chars;
        if chars.len() > 0 {
            chars.pop();
        }
        self.search_query = chars_to_string(chars.as_slice());
        assert(self.search_query@ == (if old(self).search_query@.len() > 0 {
            old(self).search_query@.drop_last()
        } else {
            old(self).search_query@
        }));
        self.apply_search();
    }

    /// Refilter the project list (and, on the session screen, the session
    /// list) by the current query, resetting the selection to the top.
    pub fn apply_search(&mut self)
        ensures
            (*final(self) == (App {
                displayed_projects: final(self).displayed_projects,
                filtered_sessions: final(self).filtered_sessions,
                selected_project: 0,
                project_scroll_offset: 0,
                session_scroll_offset: final(self).session_scroll_offset,
                ..*old(self)
            })),
            final(self).displayed_projects@ == spec_filter_projects(
                old(self).projects@,
                old(self).search_query@,
            ),
            old(self).screen != Screen::SessionList ==> final(self).filtered_sessions == old(self).filtered_sessions && final(self).session_scroll_offset == old(self).session_scroll_offset,
            old(self).screen == Screen::SessionList ==> final(self).session_scroll_offset == 0
                && exists|now: i64|
                final(self).filtered_sessions@ == spec_filter_sessions(
                    old(self).sessions@,
                    old(self).time_filter,
                    old(self).search_query@,
                    now,
                ),
    {
        if self.search_query.as_str().is_empty() {
            let d = clone_projects(&self.projects);
            proof {
                crate::search::lemma_filter_projects_empty(self.projects@, self.search_query@);
            }
            self.displayed_projects = d;
        } else {
            let d = filter_projects(&self.projects, self.search_query.as_str());
            self.displayed_projects = d;
        }
        self.selected_project = 0;
        self.project_scroll_offset = 0;
        let on_sessions = match self.screen {
            Screen::SessionList => true,
            _ => false,
        };
        if on_sessions {
            self.apply_filter();
            self.session_scroll_offset = 0;
        }
    }

    /// Open the global search screen over the given indexed sessions.
    pub fn enter_global_search(&mut self, results: Vec<SearchResult>)
        ensures
            (*final(self) == (App {
                global_search_results: final(self).global_search_results,
                global_search_filtered: final(self).global_search_filtered,
                global_search_query: final(self).global_search_query,
                global_search_selected: 0,
                global_search_scroll_offset: 0,
                screen: Screen::GlobalSearch,
                ..*old(self)
            })),
            final(self).global_search_results@.map_values(|x: SearchResult| x@)
                == results@.map_values(|x: SearchResult| x@),
            final(self).global_search_filtered@ == results@,
            final(self).global_search_query@.len() == 0,
    {
        let copy = clone_search_results(&results);
        self.global_search_results = copy;
        self.global_search_filtered = results;
        self.global_search_query = String::new();
        self.global_search_selected = 0;
        self.global_search_scroll_offset = 0;
        self.screen = Screen::GlobalSearch;
    }

    /// Add one character to the global query and rerun the search.
    pub fn global_search_push(&mut self, ch: char)
        ensures
            (*final(self) == (App {
                global_search_query: final(self).global_search_query,
                global_search_filtered: final(self).global_search_filtered,
                global_search_selected: 0,
                global_search_scroll_offset: 0,
                ..*old(self)
            })),
            final(self).global_search_query@ == old(self).global_search_query@.push(ch),
            final(self).global_search_filtered@.map_values(|x: SearchResult| x@)
                == spec_global_filter(
                old(self).global_search_results@.map_values(|x: SearchResult| x@),
                lower_of(old(self).global_search_query@.push(ch)),
            ),
    {
        push_char(&mut self.global_search_query, ch);
        assert(self.global_search_query@ =~= old(self).global_search_query@.push(ch));
        self.apply_global_search();
    }

    /// Drop the last character of the global query and rerun the search; an
    /// empty query restores the full result list.
    pub fn global_search_pop(&mut self)
        ensures
            (*final(self) == (App {
                global_search_query: final(self).global_search_query,
                global_search_filtered: final(self).global_search_filtered,
                global_search_selected: 0,
                global_search_scroll_offset: 0,
                ..*old(self)
            })),
            final(self).global_search_query@ == (if old(self).global_search_query@.len() > 0 {
                old(self).global_search_query@.drop_last()
            } else {
                old(self).global_search_query@
            }),
            final(self).global_search_query@.len() == 0 ==> final(self).global_search_filtered@.map_values(|x: SearchResult| x@) == old(self).global_search_results@.map_values(|x: SearchResult| x@),
            final(self).global_search_query@.len() > 0 ==> final(self).global_search_filtered@.map_values(|x: SearchResult| x@) == spec_global_filter(
                old(self).global_search_results@.map_values(|x: SearchResult| x@),
                lower_of(final(self).global_search_query@),
            ),
    {
        let chars = str_chars(self.global_search_query.as_str());
        let mut chars = chars;
        if chars.len() > 0 {
            chars.pop();
        }
        self.global_search_query = chars_to_string(chars.as_slice());
        assert(self.global_search_query@ == (if old(self).global_search_query@.len() > 0 {
            old(self).global_search_query@.drop_last()
        } else {
            old(self).global_search_query@
        }));
        self.apply_global_search();
    }

    fn apply_global_search(&mut self)
        ensures
            (*final(self) == (App {
                global_search_filtered: final(self).global_search_filtered,
                global_search_selected: 0,
                global_search_scroll_offset: 0,
                ..*old(self)
            })),
            old(self).global_search_query@.len() == 0 ==> final(self).global_search_filtered@.map_values(|x: SearchResult| x@) == old(self).global_search_results@.map_values(|x: SearchResult| x@),
            old(self).global_search_query@.len() > 0 ==> final(self).global_search_filtered@.map_values(|x: SearchResult| x@) == spec_global_filter(
                old(self).global_search_results@.map_values(|x: SearchResult| x@),
                lower_of(old(self).global_search_query@),
            ),
    {
        if self.global_search_query.as_str().is_empty() {
            let f = clone_search_results(&self.global_search_results);
            self.global_search_filtered = f;
        } else {
            let f = global_filter(&self.global_search_results, self.global_search_query.as_str());
            self.global_search_filtered = f;
        }
        self.global_search_selected = 0;
        self.global_search_scroll_offset = 0;
    }

    /// The shell command that resumes the selected session under the given
    /// launcher binary, if a session is selected.
    pub fn get_resume_command(&self, launcher: &str) -> (r: Option<String>)
        ensures
            match r {
                Some(c) => self.global_search_selected < self.global_search_filtered@.len() && c@
                    == launcher@ + " --resume "@ + self.global_search_filtered@[self.global_search_selected as int]@.session_id,
                None => self.global_search_selected >= self.global_search_filtered@.len(),
            },
    {
        if self.global_search_selected < self.global_search_filtered.len() {
            let mut c = launcher.to_owned();
            c.append(" --resume ");
            c.append(self.global_search_filtered[self.global_search_selected].session_id.as_str());
            Some(c)
        } else {
            None
        }
    }
}

} // verus!
