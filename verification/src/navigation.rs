//! Moving through the list of hosts: which row is selected, which rows
//! are shown, and what a key does in each mode of the screen.

use crate::ssh_status::SshStatus;
use vstd::prelude::*;

verus! {

/// What the screen shows.
#[derive(Debug, Clone, Copy, PartialEq, Eq, Structural)]
pub enum AppMode {
    /// The table of hosts.
    List,
    /// One host with all its metrics.
    Detail,
    /// The table of hosts, while the words to search for are typed.
    Search,
}

/// A key, as far as the screen tells keys apart.
#[derive(Debug, Clone, Copy, PartialEq, Eq, Structural)]
pub enum Key {
    Char(char),
    Up,
    Down,
    Enter,
    Esc,
    Backspace,
    Other,
}

/// What is to be done about a key, besides the change of mode.
#[derive(Debug, Clone, Copy, PartialEq, Eq, Structural)]
pub enum KeyEffect {
    /// Nothing.
    Nothing,
    /// Select the row below.
    SelectNext,
    /// Select the row above.
    SelectPrevious,
    /// Empty the words to search for.
    ClearSearch,
    /// Empty the words to search for and show the table from its top.
    ClearSearchAndScroll,
    /// Add the character to the words to search for.
    Type(char),
    /// Take the last character from the words to search for.
    Erase,
    /// Leave the program.
    Quit,
}

/// The mode after `key` was pressed in `mode`, and what else the key does.
pub open spec fn key_outcome(mode: AppMode, key: Key) -> (AppMode, KeyEffect) {
    match mode {
        AppMode::List => match key {
            Key::Char('/') => (AppMode::Search, KeyEffect::ClearSearch),
            Key::Char('j') | Key::Down => (AppMode::List, KeyEffect::SelectNext),
            Key::Char('k') | Key::Up => (AppMode::List, KeyEffect::SelectPrevious),
            Key::Enter => (AppMode::Detail, KeyEffect::Nothing),
            Key::Char('q') | Key::Esc => (AppMode::List, KeyEffect::Quit),
            _ => (AppMode::List, KeyEffect::Nothing),
        },
        AppMode::Search => match key {
            Key::Esc => (AppMode::List, KeyEffect::ClearSearchAndScroll),
            Key::Enter => (AppMode::List, KeyEffect::Nothing),
            Key::Backspace => (AppMode::Search, KeyEffect::Erase),
            Key::Char(c) => (AppMode::Search, KeyEffect::Type(c)),
            _ => (AppMode::Search, KeyEffect::Nothing),
        },
        AppMode::Detail => match key {
            Key::Esc => (AppMode::List, KeyEffect::Nothing),
            _ => (AppMode::Detail, KeyEffect::Nothing),
        },
    }
}

/// The row below the selected one in a table of `total` rows; the first
/// row after the last one, and where no row of the table is selected.
pub open spec fn row_below(selected: Option<usize>, total: usize) -> usize {
    match selected {
        Some(i) => if i + 1 < total {
            (i + 1) as usize
        } else {
            0
        },
        None => 0,
    }
}

/// The row above the selected one in a table of `total` rows; the last
/// row before the first one, and where no row of the table is selected.
pub open spec fn row_above(selected: Option<usize>, total: usize) -> usize {
    match selected {
        Some(i) => if 0 < i <= total {
            (i - 1) as usize
        } else if total > 0 {
            (total - 1) as usize
        } else {
            0
        },
        None => if total > 0 {
            (total - 1) as usize
        } else {
            0
        },
    }
}

/// The first row to show so that row `index` is among the `height` rows
/// shown (one row where `height` is 0): the rows move as little as they must.
pub open spec fn scrolled(index: usize, scroll: usize, height: usize) -> usize {
    let rows = if height == 0 {
        1
    } else {
        height as int
    };
    if index < scroll {
        index
    } else if index >= scroll + rows {
        (index + 1 - rows) as usize
    } else {
        scroll
    }
}

/// How many of `statuses` are connected, loading and failed.
pub open spec fn tally(statuses: Seq<SshStatus>) -> (nat, nat, nat)
    decreases statuses.len(),
{
    if statuses.len() == 0 {
        (0, 0, 0)
    } else {
        let (connected, loading, failed) = tally(statuses.drop_last());
        match statuses.last() {
            SshStatus::Connected => (connected + 1, loading, failed),
            SshStatus::Loading => (connected, loading + 1, failed),
            SshStatus::Failed(_) => (connected, loading, failed + 1),
        }
    }
}

/// Every status is counted once.
pub proof fn law_tally_counts_all(statuses: Seq<SshStatus>)
    ensures
        tally(statuses).0 + tally(statuses).1 + tally(statuses).2 == statuses.len(),
    decreases statuses.len(),
{
    if statuses.len() > 0 {
        law_tally_counts_all(statuses.drop_last());
    }
}

/// The mode after `key` was pressed in `mode`, and what else the key does.
pub fn on_key_event(mode: AppMode, key: Key) -> (r: (AppMode, KeyEffect))
    ensures
        r == key_outcome(mode, key),
{
    match mode {
        AppMode::List => match key {
            Key::Char(c) => {
                if c == '/' {
                    (AppMode::Search, KeyEffect::ClearSearch)
                } else if c == 'j' {
                    (AppMode::List, KeyEffect::SelectNext)
                } else if c == 'k' {
                    (AppMode::List, KeyEffect::SelectPrevious)
                } else if c == 'q' {
                    (AppMode::List, KeyEffect::Quit)
                } else {
                    (AppMode::List, KeyEffect::Nothing)
                }
            },
            Key::Down => (AppMode::List, KeyEffect::SelectNext),
            Key::Up => (AppMode::List, KeyEffect::SelectPrevious),
            Key::Enter => (AppMode::Detail, KeyEffect::Nothing),
            Key::Esc => (AppMode::List, KeyEffect::Quit),
            _ => (AppMode::List, KeyEffect::Nothing),
        },
        AppMode::Search => match key {
            Key::Esc => (AppMode::List, KeyEffect::ClearSearchAndScroll),
            Key::Enter => (AppMode::List, KeyEffect::Nothing),
            Key::Backspace => (AppMode::Search, KeyEffect::Erase),
            Key::Char(c) => (AppMode::Search, KeyEffect::Type(c)),
            _ => (AppMode::Search, KeyEffect::Nothing),
        },
        AppMode::Detail => match key {
            Key::Esc => (AppMode::List, KeyEffect::Nothing),
            _ => (AppMode::Detail, KeyEffect::Nothing),
        },
    }
}

/// The row to select when the selection moves down.
pub fn next_row(selected: Option<usize>, total: usize) -> (r: usize)
    ensures
        r == row_below(selected, total),
        total > 0 ==> r < total,
{
    match selected {
        Some(i) => {
            if i < total && i + 1 < total {
                i + 1
            } else {
                0
            }
        },
        None => 0,
    }
}

/// The row to select when the selection moves up.
pub fn previous_row(selected: Option<usize>, total: usize) -> (r: usize)
    ensures
        r == row_above(selected, total),
        total > 0 ==> r < total,
{
    match selected {
        Some(i) => {
            if 0 < i && i <= total {
                i - 1
            } else if total > 0 {
                total - 1
            } else {
                0
            }
        },
        None => {
            if total > 0 {
                total - 1
            } else {
                0
            }
        },
    }
}

/// The first row to show so that row `index` is shown.
pub fn scroll_if_needed(index: usize, scroll: usize, height: usize) -> (r: usize)
    ensures
        r == scrolled(index, scroll, height),
        r <= index,
        index - r < (if height == 0 {
            1
        } else {
            height as int
        }),
{
    let rows: usize = if height == 0 {
        1
    } else {
        height
    };
    if index < scroll {
        index
    } else if index - scroll >= rows {
        index - rows + 1
    } else {
        scroll
    }
}

/// Counts the connected, the loading and the failed among `statuses`.
pub fn count_statuses(statuses: &Vec<SshStatus>) -> (r: (usize, usize, usize))
    ensures
        r.0 == tally(statuses@).0,
        r.1 == tally(statuses@).1,
        r.2 == tally(statuses@).2,
{
    let mut connected: usize = 0;
    let mut loading: usize = 0;
    let mut failed: usize = 0;
    let mut i: usize = 0;
    while i < statuses.len()
        invariant
            i <= statuses.len(),
            connected == tally(statuses@.take(i as int)).0,
            loading == tally(statuses@.take(i as int)).1,
            failed == tally(statuses@.take(i as int)).2,
        decreases statuses.len() - i,
    {
        proof {
            assert(statuses@.take(i + 1).drop_last() == statuses@.take(i as int));
            law_tally_counts_all(statuses@.take(i as int));
        }
        match &statuses[i] {
            SshStatus::Connected => {
                connected += 1;
            },
            SshStatus::Loading => {
                loading += 1;
            },
            SshStatus::Failed(_) => {
                failed += 1;
            },
        }
        i += 1;
    }
    assert(statuses@.take(i as int) == statuses@);
    (connected, loading, failed)
}

} // verus!
