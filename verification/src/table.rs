//! The table of users as the service takes it to behave: a model of its
//! rows and of the identifiers it hands out, and a table in memory that keeps
//! to the model.

use vstd::prelude::*;
use crate::operation::{Reply, ReplyView, Statement, StatementView};
use crate::user::{views, User, UserView};

verus! {

/// Where the row with the identifier `id` stands, looking from `from` on;
/// the number of rows where there is none.
pub open spec fn position_from(rows: Seq<UserView>, id: i32, from: int) -> int
    decreases rows.len() - from,
{
    if from >= rows.len() {
        rows.len() as int
    } else if rows[from].id == Some(id) {
        from
    } else {
        position_from(rows, id, from + 1)
    }
}

/// The state of the table: its rows in the order in which they were
/// inserted, and the identifier that the next row will get.
pub ghost struct TableView {
    pub rows: Seq<UserView>,
    pub next_id: int,
}

impl TableView {
    /// Every row has an identifier that the table handed out, and no two
    /// rows share one.
    pub open spec fn wf(self) -> bool {
        &&& 1 <= self.next_id <= i32::MAX + 1
        &&& forall|i: int|
            0 <= i < self.rows.len() ==> (#[trigger] self.rows[i]).id is Some && 1
                <= self.rows[i].id->0 < self.next_id
        &&& forall|i: int, j: int|
            0 <= i < j < self.rows.len() ==> (#[trigger] self.rows[i]).id != (
            #[trigger] self.rows[j]).id
    }

    /// Where the row with the identifier `id` stands; the number of rows
    /// where there is none.
    pub open spec fn position(self, id: i32) -> int {
        position_from(self.rows, id, 0)
    }

    /// Whether a row has the identifier `id`.
    pub open spec fn has(self, id: i32) -> bool {
        self.position(id) < self.rows.len()
    }

    /// Whether the table can still hand out an identifier.
    pub open spec fn has_room(self) -> bool {
        self.next_id <= i32::MAX
    }

    /// The number of rows that a statement about `id` touches.
    pub open spec fn touched(self, id: i32) -> u64 {
        if self.has(id) {
            1
        } else {
            0
        }
    }

    /// The table after a statement.
    pub open spec fn after(self, statement: StatementView) -> TableView {
        match statement {
            StatementView::Insert { name, email } => if self.has_room() {
                TableView {
                    rows: self.rows.push(UserView { id: Some(self.next_id as i32), name, email }),
                    next_id: self.next_id + 1,
                }
            } else {
                self
            },
            StatementView::SelectOne { .. } => self,
            StatementView::SelectAll => self,
            StatementView::Update { id, name, email } => if self.has(id) {
                TableView {
                    rows: self.rows.update(
                        self.position(id),
                        UserView { id: Some(id), name, email },
                    ),
                    next_id: self.next_id,
                }
            } else {
                self
            },
            StatementView::Delete { id } => if self.has(id) {
                TableView { rows: self.rows.remove(self.position(id)), next_id: self.next_id }
            } else {
                self
            },
        }
    }

    /// The table's reply to a statement, when it can be reached.
    pub open spec fn reply(self, statement: StatementView) -> ReplyView {
        match statement {
            StatementView::Insert { .. } => if self.has_room() {
                ReplyView::Executed { affected: 1 }
            } else {
                ReplyView::StatementFailed
            },
            StatementView::SelectOne { id } => if self.has(id) {
                ReplyView::Rows(seq![self.rows[self.position(id)]])
            } else {
                ReplyView::Rows(Seq::empty())
            },
            StatementView::SelectAll => ReplyView::Rows(self.rows),
            StatementView::Update { id, .. } => ReplyView::Executed { affected: self.touched(id) },
            StatementView::Delete { id } => ReplyView::Executed { affected: self.touched(id) },
        }
    }
}

/// `position_from` is the least position of the identifier.
pub proof fn lemma_position(rows: Seq<UserView>, id: i32, from: int)
    requires
        0 <= from <= rows.len(),
    ensures
        from <= position_from(rows, id, from) <= rows.len(),
        forall|k: int|
            from <= k < position_from(rows, id, from) ==> (#[trigger] rows[k]).id != Some(id),
        position_from(rows, id, from) < rows.len() ==> rows[position_from(rows, id, from)].id
            == Some(id),
    decreases rows.len() - from,
{
    if from < rows.len() && rows[from].id != Some(id) {
        lemma_position(rows, id, from + 1);
    }
}

/// A well-formed table stays well-formed under every statement.
pub proof fn lemma_after_wf(table: TableView, statement: StatementView)
    requires
        table.wf(),
    ensures
        table.after(statement).wf(),
{
    let after = table.after(statement);
    match statement {
        StatementView::Update { id, .. } => {
            lemma_position(table.rows, id, 0);
        },
        StatementView::Delete { id } => {
            lemma_position(table.rows, id, 0);
            if table.has(id) {
                let at = table.position(id);
                assert forall|i: int| 0 <= i < after.rows.len() implies (
                #[trigger] after.rows[i]).id is Some && 1 <= after.rows[i].id->0
                    < after.next_id by {
                    if i < at {
                        assert(after.rows[i] == table.rows[i]);
                    } else {
                        assert(after.rows[i] == table.rows[i + 1]);
                    }
                }
                assert forall|i: int, j: int| 0 <= i < j < after.rows.len() implies (
                #[trigger] after.rows[i]).id != (#[trigger] after.rows[j]).id by {
                    let i0 = if i < at {
                        i
                    } else {
                        i + 1
                    };
                    let j0 = if j < at {
                        j
                    } else {
                        j + 1
                    };
                    assert(after.rows[i] == table.rows[i0]);
                    assert(after.rows[j] == table.rows[j0]);
                }
            }
        },
        _ => {},
    }
}

/// A table of users in memory. It behaves as `TableView` says, and so can
/// stand for the real table wherever a connection is not wanted.
#[derive(Debug)]
pub struct Table {
    rows: Vec<User>,
    next_id: i64,
}

impl View for Table {
    type V = TableView;

    closed spec fn view(&self) -> TableView {
        TableView { rows: views(self.rows@), next_id: self.next_id as int }
    }
}

impl Table {
    /// Whether the table is in a state that `new` and `execute` lead to.
    pub open spec fn wf(&self) -> bool {
        self@.wf()
    }

    /// An empty table, whose first row will get the identifier 1.
    pub fn new() -> (table: Table)
        ensures
            table.wf(),
            table@ == (TableView { rows: Seq::empty(), next_id: 1 }),
    {
        let table = Table { rows: Vec::new(), next_id: 1 };
        assert(table@.rows =~= Seq::empty());
        table
    }

    fn find(&self, id: i32) -> (at: usize)
        ensures
            at == self@.position(id),
            at <= self.rows.len(),
    {
        let mut at: usize = 0;
        while at < self.rows.len()
            invariant
                at <= self.rows.len(),
                position_from(views(self.rows@), id, 0) == position_from(
                    views(self.rows@),
                    id,
                    at as int,
                ),
            decreases self.rows.len() - at,
        {
            match self.rows[at].id {
                Some(found) => {
                    if found == id {
                        return at;
                    }
                },
                None => {},
            }
            at = at + 1;
        }
        at
    }

    /// Runs a statement on the table and gives its reply. The connection
    /// never fails.
    pub fn execute(&mut self, statement: &Statement) -> (reply: Reply)
        requires
            old(self).wf(),
        ensures
            final(self).wf(),
            final(self)@ == old(self)@.after(statement@),
            reply@ == old(self)@.reply(statement@),
    {
        proof {
            lemma_after_wf(self@, statement@);
        }
        match statement {
            Statement::Insert { name, email } => {
                if self.next_id > 2147483647 {
                    return Reply::StatementFailed;
                }
                let user = User {
                    id: Some(self.next_id as i32),
                    name: name.clone(),
                    email: email.clone(),
                };
                self.rows.push(user);
                self.next_id = self.next_id + 1;
                proof {
                    assert(self@.rows =~= old(self)@.after(statement@).rows);
                }
                Reply::Executed { affected: 1 }
            },
            Statement::SelectOne { id } => {
                let at = self.find(*id);
                let mut found: Vec<User> = Vec::new();
                if at < self.rows.len() {
                    found.push(self.rows[at].clone());
                    proof {
                        assert(views(found@) =~= seq![self@.rows[at as int]]);
                    }
                } else {
                    proof {
                        assert(views(found@) =~= Seq::<UserView>::empty());
                    }
                }
                Reply::Rows(found)
            },
            Statement::SelectAll => {
                let mut all: Vec<User> = Vec::new();
                let mut at: usize = 0;
                while at < self.rows.len()
                    invariant
                        at <= self.rows.len(),
                        views(all@) == views(self.rows@).take(at as int),
                    decreases self.rows.len() - at,
                {
                    let user = self.rows[at].clone();
                    let ghost before = all@;
                    all.push(user);
                    proof {
                        assert(views(all@) =~= views(before).push(user@));
                        assert(views(self.rows@).take(at + 1) =~= views(self.rows@).take(
                            at as int,
                        ).push(self.rows@[at as int]@));
                    }
                    at = at + 1;
                }
                proof {
                    assert(views(self.rows@).take(at as int) =~= views(self.rows@));
                }
                Reply::Rows(all)
            },
            Statement::Update { id, name, email } => {
                let at = self.find(*id);
                if at < self.rows.len() {
                    let user = User { id: Some(*id), name: name.clone(), email: email.clone() };
                    self.rows.set(at, user);
                    proof {
                        assert(self@.rows =~= old(self)@.after(statement@).rows);
                    }
                    Reply::Executed { affected: 1 }
                } else {
                    Reply::Executed { affected: 0 }
                }
            },
            Statement::Delete { id } => {
                let at = self.find(*id);
                if at < self.rows.len() {
                    self.rows.remove(at);
                    proof {
                        assert(self@.rows =~= old(self)@.after(statement@).rows);
                    }
                    Reply::Executed { affected: 1 }
                } else {
                    Reply::Executed { affected: 0 }
                }
            },
        }
    }
}

} // verus!
