//! The entities of the service and the records that hold their rows.
//!
//! Every entity has a table with an integer key, `id`, that the store
//! assigns, and a fixed list of text columns. A record carries the key, if it
//! has one yet, and one text per column, in the order of the columns.

use vstd::prelude::*;

verus! {

/// An entity of the service.
#[derive(Debug, Clone, Copy, PartialEq, Eq, Structural)]
pub enum Entity {
    User,
    Mapel,
    Guru,
}

impl Entity {
    /// The name of the entity's table.
    pub open spec fn table(self) -> Seq<char> {
        match self {
            Entity::User => "users"@,
            Entity::Mapel => "mapel"@,
            Entity::Guru => "guru"@,
        }
    }

    /// The entity's name as the confirmations write it.
    pub open spec fn label(self) -> Seq<char> {
        match self {
            Entity::User => "User"@,
            Entity::Mapel => "Mapel"@,
            Entity::Guru => "Guru"@,
        }
    }

    /// The names of the entity's text columns, in the order of a record's
    /// values.
    pub open spec fn columns(self) -> Seq<Seq<char>> {
        match self {
            Entity::User => seq!["name"@, "email"@, "password"@],
            Entity::Mapel => seq!["mapel"@],
            Entity::Guru => seq!["name"@, "nomor_telefon"@],
        }
    }

    /// The name of the entity's table.
    pub fn table_name(self) -> (name: &'static str)
        ensures
            name@ == self.table(),
    {
        match self {
            Entity::User => "users",
            Entity::Mapel => "mapel",
            Entity::Guru => "guru",
        }
    }

    /// The entity's name as the confirmations write it.
    pub fn label_text(self) -> (name: &'static str)
        ensures
            name@ == self.label(),
    {
        match self {
            Entity::User => "User",
            Entity::Mapel => "Mapel",
            Entity::Guru => "Guru",
        }
    }

    /// How many text columns the entity has.
    pub fn column_count(self) -> (n: usize)
        ensures
            n == self.columns().len(),
            1 <= n <= 3,
    {
        match self {
            Entity::User => 3,
            Entity::Mapel => 1,
            Entity::Guru => 2,
        }
    }

    /// The name of text column number `i`.
    pub fn column_name(self, i: usize) -> (name: &'static str)
        requires
            i < self.columns().len(),
        ensures
            name@ == self.columns()[i as int],
    {
        match self {
            Entity::User => if i == 0 {
                "name"
            } else if i == 1 {
                "email"
            } else {
                "password"
            },
            Entity::Mapel => "mapel",
            Entity::Guru => if i == 0 {
                "name"
            } else {
                "nomor_telefon"
            },
        }
    }
}

/// One row of an entity's table, or the content of one that is to be
/// written.
#[derive(Debug, Clone, PartialEq, Eq)]
pub struct Record {
    /// The key; `None` until the store has assigned one.
    pub id: Option<i32>,
    /// One text per column.
    pub values: Vec<String>,
}

/// The mathematical content of a record.
pub struct RecordView {
    pub id: Option<i32>,
    pub values: Seq<Seq<char>>,
}

impl View for Record {
    type V = RecordView;

    open spec fn view(&self) -> RecordView {
        RecordView { id: self.id, values: self.values.deep_view() }
    }
}

impl DeepView for Record {
    type V = RecordView;

    open spec fn deep_view(&self) -> RecordView {
        self@
    }
}

impl RecordView {
    /// Whether the record has one value for each column of `entity`.
    pub open spec fn fits(self, entity: Entity) -> bool {
        self.values.len() == entity.columns().len()
    }
}

impl Record {
    /// Tells whether the record has one value for each column of `entity`.
    pub fn fits(&self, entity: Entity) -> (b: bool)
        ensures
            b == self@.fits(entity),
    {
        self.values.len() == entity.column_count()
    }
}

} // verus!
