//! Session and usage logic behind a waybar widget for opencode sessions: which
//! state each agent session is in, how the session list, the bar and its tooltip
//! read, and what the session picker does with the user's choice.
pub mod boot;
pub mod columns;
pub mod dates;
pub mod laws;
pub mod listing;
pub mod pick;
pub mod session;
pub mod text;
pub mod usage;
pub mod waybar;

pub use boot::{boot_time_ms, btime_seconds};
pub use columns::{dir_width, join_lines, title_width};
pub use listing::{list_line, list_lines};
pub use pick::{
    find_entry, find_window, launch_command, menu_line, menu_lines, pick,
    PickAction, PickError, PickEvent, PickState, Window,
};
pub use session::{
    derive_state, is_recent_at, list, pad, relative_time_at, short_dir, truncate, Session,
    State,
};
pub use text::decimal_string;
pub use usage::{
    cache_is_fresh, label_column, needs_fetch, remaining_str, remaining_until, seconds_left,
    unavailable_row, usage_body, usage_status, UsageStatus,
};
pub use waybar::{
    bar_class, bar_output, count_in_state, html_escape, icon, tooltip_line,
    usage_block, BarOutput,
};
