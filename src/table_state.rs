//! Which row of a table is being edited, and the text of its cells.
use std::collections::HashMap;
use std::marker::PhantomData;

use vstd::prelude::*;

verus! {

/// The edit state of a table of `T`: the id of the row being edited, if
/// any, and the text of its cells by column name.
pub struct TableState<T> {
    editing_id: Option<i64>,
    edit_values: HashMap<String, String>,
    extra_state: HashMap<String, String>,
    _phantom: PhantomData<T>,
}

/// What a table asks of its owner.
#[derive(Debug, Clone)]
pub enum TableMessage {
    EditField(i64, String, String),
    SaveRow(i64),
    StartEditing(i64),
    CancelEditing(i64),
    DeleteRow(i64),
}

/// The edit flag that every row's edit state has.
#[derive(Debug, Clone)]
pub struct DefaultEditStateFields {
    pub is_editing: bool,
}

impl<T> TableState<T> {
    /// The id of the row being edited, if any.
    pub closed spec fn editing(&self) -> Option<i64> {
        self.editing_id
    }

    /// The text of the edited row's cells, by column name.
    pub closed spec fn values(&self) -> Map<String, String> {
        self.edit_values@
    }

    /// A table with no row being edited.
    pub fn new() -> (r: Self)
        ensures
            r.editing() is None,
            r.values() == Map::<String, String>::empty(),
    {
        TableState {
            editing_id: None,
            edit_values: HashMap::new(),
            extra_state: HashMap::new(),
            _phantom: PhantomData,
        }
    }

    /// Starts editing row `id` with the given cell texts.
    pub fn start_editing(&mut self, id: i64, initial_values: HashMap<String, String>)
        ensures
            final(self).editing() == Some(id),
            final(self).values() == initial_values@,
    {
        self.editing_id = Some(id);
        self.edit_values = initial_values;
    }

    /// Stops editing: no row is edited and no cell text is kept.
    pub fn stop_editing(&mut self)
        ensures
            final(self).editing() is None,
            final(self).values() == Map::<String, String>::empty(),
    {
        self.editing_id = None;
        self.edit_values.clear();
    }

    /// The id of the row being edited, if any.
    pub fn editing_id(&self) -> (r: Option<i64>)
        ensures
            r == self.editing(),
    {
        self.editing_id
    }
}

} // verus!
