//! An authorized record store: one administrative identity may register,
//! update and delete books, and any caller may look a book up by its id.
mod book;
mod laws;
mod store;

pub use book::{Book, BookStoreError, BookView};
pub use laws::{
    applied, lemma_delete_keeps_ids_unique, lemma_delete_missing_id_changes_nothing,
    lemma_delete_removes_exactly_that_book, lemma_ids_unique_after_any_requests,
    lemma_register_by_stranger_changes_nothing, lemma_register_duplicate_id_changes_nothing,
    lemma_register_keeps_ids_unique, lemma_update_changes_only_that_book,
    lemma_update_keeps_ids_unique, lemma_update_refusals, run, StoreOp,
};
pub use store::{
    accessed, deleted, fresh, has_id, ids_unique, index_of, registered, swap_removed, updated,
    BookStore, StoreView,
};
