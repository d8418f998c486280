//! A data-access layer over a single `users` table.
//!
//! `user` holds the record and its closed role enumeration; `query` the
//! decisions each repository operation makes before it talks to the store
//! (which selector wins, which page window is read, what a missing count
//! means); `table` an in-memory model of the table whose operations carry
//! the store's guarantees: unique ids, names, emails and tokens,
//! newest-first paging, and the verification flow; `laws` what holds
//! across those operations.
mod laws;
mod query;
mod table;
mod user;

pub use laws::{
    duplicate_email_rejected, insert_gives_fresh_id, lookup_matches_one_row,
    page_is_window_of_newest_first, redeem_clears_token,
};
pub use query::{
    choose_selector, count_or_zero, page_offset, page_window, selected_by, str_view,
    window_fits, PageWindow, Selector,
};
pub use table::{
    distinct, has_id, insert_clash, is_new_record, name_taken_by_other, newest_first,
    next_clock, page_of, redeemed, rows_wf, token_taken_by_other, StoreError, UserTable,
};
pub use user::{role_text, User, UserRole};
