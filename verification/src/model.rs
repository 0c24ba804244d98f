//! What the handlers rely on in the record store, and what follows from it.
//!
//! The store is outside this library, so nothing here runs. This module
//! writes down, for one table, what each statement is taken to do: rows
//! have distinct keys, a new row gets the next key, and a key names at most
//! one row. Over that reading of the store, the laws below say what a
//! caller of the service observes across several requests.

use crate::entity::{Entity, RecordView};
use crate::handler::{confirmed, missing, planned, settled, text_params, StepView};
use crate::json::{all_fit, json_list, json_record, login_failure, login_success};
use crate::response::{ResponseView, Status};
use crate::route::Target;
use crate::store::{OutcomeView, ParamView};
use vstd::prelude::*;

verus! {

/// One table of the store.
pub struct Table {
    /// The rows, in the order in which the store returns them.
    pub rows: Seq<RecordView>,
    /// The key that the next new row gets.
    pub next: int,
}

/// The position of the first row of `rows`, at or after `from`, with the key
/// `id`; `rows.len()` when there is none.
pub open spec fn position(rows: Seq<RecordView>, id: i32, from: int) -> int
    decreases rows.len() - from,
{
    if from < 0 || from >= rows.len() {
        rows.len() as int
    } else if rows[from].id == Some(id) {
        from
    } else {
        position(rows, id, from + 1)
    }
}

/// Whether a user row has this name and this password.
pub open spec fn has_credentials(row: RecordView, name: Seq<char>, secret: Seq<char>) -> bool {
    row.values.len() == 3 && row.values[0] == name && row.values[2] == secret
}

/// The rows among the first `n` of `rows` with this name and this password,
/// in their order.
pub open spec fn matching(rows: Seq<RecordView>, name: Seq<char>, secret: Seq<char>, n: nat) -> Seq<
    RecordView,
>
    decreases n,
{
    if n == 0 {
        Seq::empty()
    } else if has_credentials(rows[n - 1], name, secret) {
        matching(rows, name, secret, (n - 1) as nat).push(rows[n - 1])
    } else {
        matching(rows, name, secret, (n - 1) as nat)
    }
}

/// The texts of the first `n` parameters.
pub open spec fn texts_of(params: Seq<ParamView>, n: int) -> Seq<Seq<char>> {
    Seq::new(
        n as nat,
        |i: int|
            match params[i] {
                ParamView::Text(text) => text,
                ParamView::Int(_) => Seq::empty(),
            },
    )
}

/// The key that a statement names: its last parameter.
pub open spec fn key_of(params: Seq<ParamView>) -> i32 {
    match params.last() {
        ParamView::Int(id) => id,
        ParamView::Text(_) => 0,
    }
}

impl Table {
    /// Whether the table is one of `entity`: every row has a key below
    /// `next` and one value per column, no key occurs twice, and keys start
    /// at 1.
    pub open spec fn wf(self, entity: Entity) -> bool {
        &&& 1 <= self.next
        &&& forall|i: int|
            0 <= i < self.rows.len() ==> {
                &&& (#[trigger] self.rows[i]).id is Some
                &&& 1 <= self.rows[i].id->0 < self.next
                &&& self.rows[i].fits(entity)
            }
        &&& forall|i: int, j: int|
            0 <= i < j < self.rows.len() ==> (#[trigger] self.rows[i]).id != (
            #[trigger] self.rows[j]).id
    }

    /// Whether the table has a row with the key `id`.
    pub open spec fn holds(self, id: i32) -> bool {
        exists|i: int| 0 <= i < self.rows.len() && (#[trigger] self.rows[i]).id == Some(id)
    }

    /// Whether the next key still fits the key's type.
    pub open spec fn has_room(self) -> bool {
        self.next <= i32::MAX
    }

    /// The table after the statement of `target` with these parameters, and
    /// the outcome of the statement.
    pub open spec fn run(self, target: Target, params: Seq<ParamView>) -> (Table, OutcomeView) {
        match target {
            Target::Create(_) => if self.has_room() {
                (
                    Table {
                        rows: self.rows.push(
                            RecordView {
                                id: Some(self.next as i32),
                                values: texts_of(params, params.len() as int),
                            },
                        ),
                        next: self.next + 1,
                    },
                    OutcomeView::Affected(1),
                )
            } else {
                (self, OutcomeView::Failed)
            },
            Target::Read(_) => {
                let at = position(self.rows, key_of(params), 0);
                if at < self.rows.len() {
                    (self, OutcomeView::Row(Some(self.rows[at])))
                } else {
                    (self, OutcomeView::Row(None))
                }
            },
            Target::List(_) => (self, OutcomeView::Rows(self.rows)),
            Target::Update(_) => {
                let at = position(self.rows, key_of(params), 0);
                if at < self.rows.len() {
                    (
                        Table {
                            rows: self.rows.update(
                                at,
                                RecordView {
                                    id: self.rows[at].id,
                                    values: texts_of(params, params.len() - 1),
                                },
                            ),
                            next: self.next,
                        },
                        OutcomeView::Affected(1),
                    )
                } else {
                    (self, OutcomeView::Affected(0))
                }
            },
            Target::Delete(_) => {
                let at = position(self.rows, key_of(params), 0);
                if at < self.rows.len() {
                    (
                        Table { rows: self.rows.remove(at), next: self.next },
                        OutcomeView::Affected(1),
                    )
                } else {
                    (self, OutcomeView::Affected(0))
                }
            },
            Target::Login => (
                self,
                OutcomeView::Rows(
                    matching(
                        self.rows,
                        texts_of(params, 2)[0],
                        texts_of(params, 2)[1],
                        self.rows.len(),
                    ),
                ),
            ),
        }
    }

    /// The table after one request for `target` has been served, and the
    /// response to it: the handler plans, the store runs the statement if
    /// there is one, and the handler settles the outcome.
    pub open spec fn serve(self, target: Target, id: Option<i32>, body: Option<RecordView>) -> (
        Table,
        ResponseView,
    ) {
        match planned(target, id, body) {
            StepView::Reply(response) => (self, response),
            StepView::Run(statement) => {
                let (after, outcome) = self.run(target, statement.params);
                (after, settled(target, outcome))
            },
        }
    }

    /// The table after one record after the other of `records` has been
    /// created in it.
    pub open spec fn create_all(self, entity: Entity, records: Seq<RecordView>) -> Table
        decreases records.len(),
    {
        if records.len() == 0 {
            self
        } else {
            self.create_all(entity, records.drop_last()).serve(
                Target::Create(entity),
                None,
                Some(records.last()),
            ).0
        }
    }
}

/// `position` reports the first row with the key, or the length when no row
/// at or after `from` has it.
pub proof fn lemma_position(rows: Seq<RecordView>, id: i32, from: int)
    requires
        0 <= from <= rows.len(),
    ensures
        from <= position(rows, id, from) <= rows.len(),
        position(rows, id, from) < rows.len() ==> rows[position(rows, id, from)].id == Some(id),
        forall|j: int| from <= j < position(rows, id, from) ==> (#[trigger] rows[j]).id != Some(id),
    decreases rows.len() - from,
{
    if from < rows.len() && rows[from].id != Some(id) {
        lemma_position(rows, id, from + 1);
    }
}

/// The matching rows are rows of the table with the credentials, and there
/// is one as soon as one row of the first `n` has them.
pub proof fn lemma_matching(rows: Seq<RecordView>, name: Seq<char>, secret: Seq<char>, n: nat)
    requires
        n <= rows.len(),
    ensures
        forall|k: int|
            0 <= k < matching(rows, name, secret, n).len() ==> has_credentials(
                #[trigger] matching(rows, name, secret, n)[k],
                name,
                secret,
            ),
        matching(rows, name, secret, n).len() == 0 <==> forall|i: int|
            0 <= i < n ==> !has_credentials(#[trigger] rows[i], name, secret),
    decreases n,
{
    if n > 0 {
        lemma_matching(rows, name, secret, (n - 1) as nat);
        if !has_credentials(rows[n - 1], name, secret) {
            assert forall|i: int| 0 <= i < n && (forall|i: int|
                0 <= i < n - 1 ==> !has_credentials(
                    #[trigger] rows[i],
                    name,
                    secret,
                )) implies !has_credentials(#[trigger] rows[i], name, secret) by {}
        }
    }
}

/// Create, then read. In a table with room for one more key, creating a
/// record is confirmed, the key that the store gives it is above every key
/// of the table, and reading that key returns the record: the same values
/// under that key.
pub proof fn law_create_then_read(table: Table, entity: Entity, record: RecordView)
    requires
        table.wf(entity),
        table.has_room(),
        record.fits(entity),
    ensures
        ({
            let (created, confirmation) = table.serve(Target::Create(entity), None, Some(record));
            let key = table.next as i32;
            let (after, answer) = created.serve(Target::Read(entity), Some(key), None);
            &&& confirmation == confirmed(entity, " created"@)
            &&& forall|i: int|
                0 <= i < table.rows.len() ==> (#[trigger] table.rows[i]).id->0 < key
            &&& created.wf(entity)
            &&& created.next == table.next + 1
            &&& after == created
            &&& answer.status == Status::Success
            &&& answer.body == json_record(
                entity,
                RecordView { id: Some(key), values: record.values },
            )
        }),
{
    let values = record.values;
    let params = text_params(values);
    assert(texts_of(params, params.len() as int) =~= values);
    let key = table.next as i32;
    let row = RecordView { id: Some(key), values };
    let created = Table { rows: table.rows.push(row), next: table.next + 1 };
    assert(table.serve(Target::Create(entity), None, Some(record)).0 == created);
    assert(created.wf(entity)) by {
        assert forall|i: int| 0 <= i < created.rows.len() implies {
            &&& (#[trigger] created.rows[i]).id is Some
            &&& 1 <= created.rows[i].id->0 < created.next
            &&& created.rows[i].fits(entity)
        } by {
            if i < table.rows.len() {
                assert(created.rows[i] == table.rows[i]);
            }
        }
        assert forall|i: int, j: int| 0 <= i < j < created.rows.len() implies (
        #[trigger] created.rows[i]).id != (#[trigger] created.rows[j]).id by {
            assert(created.rows[i] == table.rows[i]);
            if j < table.rows.len() {
                assert(created.rows[j] == table.rows[j]);
            }
        }
    }
    let read_params = Seq::<ParamView>::empty().push(ParamView::Int(key));
    assert(planned(Target::Read(entity), Some(key), None) matches StepView::Run(statement)
        && statement.params == read_params);
    assert(key_of(read_params) == key);
    lemma_position(created.rows, key, 0);
    let at = position(created.rows, key, 0);
    assert(created.rows[table.rows.len() as int] == row);
    assert(at == table.rows.len()) by {
        if at < table.rows.len() {
            assert(created.rows[at] == table.rows[at]);
        }
    }
}

/// Delete. Deleting a key that the table does not hold answers not found
/// and leaves the table as it was. Deleting a key that it holds is
/// confirmed; after that the table does not hold the key, reading it
/// answers not found, and so does deleting it again.
pub proof fn law_delete(table: Table, entity: Entity, id: i32)
    requires
        table.wf(entity),
    ensures
        ({
            let (after, answer) = table.serve(Target::Delete(entity), Some(id), None);
            &&& after.wf(entity)
            &&& !after.holds(id)
            &&& !table.holds(id) ==> answer == missing(entity) && after == table
            &&& table.holds(id) ==> answer == confirmed(entity, " deleted"@)
            &&& after.serve(Target::Read(entity), Some(id), None) == (after, missing(entity))
            &&& after.serve(Target::Delete(entity), Some(id), None) == (after, missing(entity))
        }),
{
    let params = Seq::<ParamView>::empty().push(ParamView::Int(id));
    assert(planned(Target::Delete(entity), Some(id), None) matches StepView::Run(statement)
        && statement.params == params);
    assert(planned(Target::Read(entity), Some(id), None) matches StepView::Run(statement)
        && statement.params == params);
    assert(key_of(params) == id);
    lemma_position(table.rows, id, 0);
    let at = position(table.rows, id, 0);
    let after = table.serve(Target::Delete(entity), Some(id), None).0;
    if at < table.rows.len() {
        assert(table.holds(id));
        assert(after.rows == table.rows.remove(at));
        assert forall|i: int| 0 <= i < after.rows.len() implies {
            &&& (#[trigger] after.rows[i]).id is Some
            &&& 1 <= after.rows[i].id->0 < after.next
            &&& after.rows[i].fits(entity)
            &&& after.rows[i].id != Some(id)
        } by {
            if i < at {
                assert(after.rows[i] == table.rows[i]);
            } else {
                assert(after.rows[i] == table.rows[i + 1]);
            }
        }
        assert forall|i: int, j: int| 0 <= i < j < after.rows.len() implies (
        #[trigger] after.rows[i]).id != (#[trigger] after.rows[j]).id by {
            let oi = if i < at {
                i
            } else {
                i + 1
            };
            let oj = if j < at {
                j
            } else {
                j + 1
            };
            assert(after.rows[i] == table.rows[oi]);
            assert(after.rows[j] == table.rows[oj]);
        }
    } else {
        assert(!table.holds(id));
        assert(after == table);
    }
    assert(!after.holds(id));
    lemma_position(after.rows, id, 0);
    let again = position(after.rows, id, 0);
    assert(again == after.rows.len()) by {
        if again < after.rows.len() {
            assert(after.rows[again].id == Some(id));
        }
    }
}

/// Update of a row that is not there. Updating is confirmed whether or not
/// the table holds the key; when it does not, the table stays as it was.
pub proof fn law_update_confirms(table: Table, entity: Entity, id: i32, record: RecordView)
    requires
        table.wf(entity),
        record.fits(entity),
    ensures
        ({
            let (after, answer) = table.serve(Target::Update(entity), Some(id), Some(record));
            &&& answer == confirmed(entity, " updated"@)
            &&& !table.holds(id) ==> after == table
        }),
{
    let params = text_params(record.values).push(ParamView::Int(id));
    assert(planned(Target::Update(entity), Some(id), Some(record)) matches StepView::Run(
        statement,
    ) && statement.params == params);
    assert(key_of(params) == id);
    lemma_position(table.rows, id, 0);
}

/// Update, then read. An update leaves every key where it was, and adds
/// and removes no row. When the table holds the key, reading it afterwards
/// returns the values of the update under that key.
pub proof fn law_update_then_read(table: Table, entity: Entity, id: i32, record: RecordView)
    requires
        table.wf(entity),
        record.fits(entity),
    ensures
        ({
            let after = table.serve(Target::Update(entity), Some(id), Some(record)).0;
            let answer = after.serve(Target::Read(entity), Some(id), None).1;
            &&& after.wf(entity)
            &&& after.next == table.next
            &&& after.rows.len() == table.rows.len()
            &&& forall|i: int|
                0 <= i < table.rows.len() ==> (#[trigger] after.rows[i]).id == table.rows[i].id
            &&& table.holds(id) ==> answer == (ResponseView {
                status: Status::Success,
                body: json_record(entity, RecordView { id: Some(id), values: record.values }),
            })
        }),
{
    let params = text_params(record.values).push(ParamView::Int(id));
    assert(planned(Target::Update(entity), Some(id), Some(record)) matches StepView::Run(
        statement,
    ) && statement.params == params);
    assert(key_of(params) == id);
    assert(texts_of(params, params.len() - 1) =~= record.values);
    lemma_position(table.rows, id, 0);
    let at = position(table.rows, id, 0);
    let after = table.serve(Target::Update(entity), Some(id), Some(record)).0;
    if at < table.rows.len() {
        let row = RecordView { id: Some(id), values: record.values };
        assert(after.rows == table.rows.update(at, row));
        assert forall|i: int| 0 <= i < after.rows.len() implies (#[trigger] after.rows[i]).id
            == table.rows[i].id && after.rows[i].fits(entity) by {
            if i != at {
                assert(after.rows[i] == table.rows[i]);
            }
        }
        let read_params = Seq::<ParamView>::empty().push(ParamView::Int(id));
        assert(planned(Target::Read(entity), Some(id), None) matches StepView::Run(statement)
            && statement.params == read_params);
        assert(key_of(read_params) == id);
        lemma_position(after.rows, id, 0);
        let again = position(after.rows, id, 0);
        assert(again == at) by {
            assert(after.rows[at].id == Some(id));
            if again < at {
                assert(after.rows[again].id == table.rows[again].id);
            }
        }
    } else {
        assert(!table.holds(id));
        assert(after == table);
    }
}

/// Login. With a table of users, a login is answered with success and the
/// name exactly when some row has both the name and the password of the
/// body; otherwise, and so for every login on an empty table, it is
/// answered as unauthorized.
pub proof fn law_login(table: Table, name: Seq<char>, secret: Seq<char>)
    requires
        table.wf(Entity::User),
    ensures
        ({
            let body = RecordView { id: None, values: seq![name, secret] };
            let (after, answer) = table.serve(Target::Login, None, Some(body));
            let found = exists|i: int|
                0 <= i < table.rows.len() && has_credentials(
                    #[trigger] table.rows[i],
                    name,
                    secret,
                );
            &&& after == table
            &&& found ==> answer == (ResponseView {
                status: Status::Success,
                body: login_success(name),
            })
            &&& !found ==> answer == (ResponseView {
                status: Status::Unauthorized,
                body: login_failure(),
            })
        }),
{
    let body = RecordView { id: None, values: seq![name, secret] };
    let params = text_params(body.values);
    assert(planned(Target::Login, None, Some(body)) matches StepView::Run(statement)
        && statement.params == params);
    assert(texts_of(params, 2) =~= seq![name, secret]);
    lemma_matching(table.rows, name, secret, table.rows.len());
    let rows = matching(table.rows, name, secret, table.rows.len());
    if rows.len() > 0 {
        assert(has_credentials(rows[0], name, secret));
        assert(rows[0].fits(Entity::User));
    }
}

/// Creating keeps a table well formed, adds one row per record and hands
/// out one key per record.
pub proof fn lemma_create_all(table: Table, entity: Entity, records: Seq<RecordView>)
    requires
        table.wf(entity),
        table.next + records.len() <= i32::MAX + 1,
        forall|i: int| 0 <= i < records.len() ==> (#[trigger] records[i]).fits(entity),
    ensures
        table.create_all(entity, records).wf(entity),
        table.create_all(entity, records).next == table.next + records.len(),
        table.create_all(entity, records).rows.len() == table.rows.len() + records.len(),
    decreases records.len(),
{
    if records.len() > 0 {
        let earlier = records.drop_last();
        assert forall|i: int| 0 <= i < earlier.len() implies (#[trigger] earlier[i]).fits(
            entity,
        ) by {
            assert(earlier[i] == records[i]);
        }
        lemma_create_all(table, entity, earlier);
        let before = table.create_all(entity, earlier);
        law_create_then_read(before, entity, records.last());
    }
}

/// Many creates, then a list. After as many creates as there are records,
/// in any order in which the store takes them one by one, the list of an
/// empty table holds exactly that many rows, no two with the same key.
pub proof fn law_creates_then_list(entity: Entity, records: Seq<RecordView>)
    requires
        records.len() <= i32::MAX,
        forall|i: int| 0 <= i < records.len() ==> (#[trigger] records[i]).fits(entity),
    ensures
        ({
            let empty = Table { rows: Seq::empty(), next: 1 };
            let filled = empty.create_all(entity, records);
            let (after, answer) = filled.serve(Target::List(entity), None, None);
            &&& after == filled
            &&& filled.rows.len() == records.len()
            &&& forall|i: int, j: int|
                0 <= i < j < filled.rows.len() ==> (#[trigger] filled.rows[i]).id != (
                #[trigger] filled.rows[j]).id
            &&& answer.status == Status::Success
            &&& answer.body == json_list(entity, filled.rows)
        }),
{
    let empty = Table { rows: Seq::empty(), next: 1 };
    assert(empty.wf(entity));
    lemma_create_all(empty, entity, records);
    let filled = empty.create_all(entity, records);
    assert(all_fit(entity, filled.rows));
    assert(planned(Target::List(entity), None, None) is Run);
}

} // verus!
