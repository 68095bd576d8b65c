use vstd::prelude::*;
use crate::text::text;
use crate::translator::TableMapping;

verus! {

/// A row as the rest of the engine sees it: which mapping it belongs to and its field
/// values under their legacy names, the record id first.
pub type RowView = (TableMapping, Seq<(Seq<char>, Seq<char>)>);

pub open spec fn row_id(v: RowView) -> Seq<char> {
    v.1[0].1
}

/// The legacy field names that a mapping owns, in the order of a row's view.
pub open spec fn owned_keys(m: TableMapping) -> Seq<Seq<char>> {
    match m {
        TableMapping::Name => seq!["ID"@, "name"@, "code"@],
        TableMapping::MasterList => seq!["ID"@, "description"@, "code"@, "note"@],
        TableMapping::MasterListNameJoin => seq!["ID"@, "name_ID"@, "list_master_ID"@],
    }
}

#[derive(Debug, PartialEq, Eq)]
pub struct NameRow {
    pub id: String,
    pub name: String,
    pub code: String,
}

#[derive(Debug, PartialEq, Eq)]
pub struct MasterListRow {
    pub id: String,
    pub name: String,
    pub code: String,
    pub description: String,
}

#[derive(Debug, PartialEq, Eq)]
pub struct MasterListNameJoinRow {
    pub id: String,
    pub master_list_id: String,
    pub name_id: String,
}

/// The legacy shape of a master list to name join.
#[allow(non_snake_case)]
#[derive(Debug, PartialEq, Eq)]
pub struct LegacyListMasterNameJoinRow {
    pub ID: String,
    pub name_ID: String,
    pub list_master_ID: String,
}

impl LegacyListMasterNameJoinRow {
    /// The typed row that a legacy join row maps onto.
    pub fn to_row(self) -> (r: MasterListNameJoinRow)
        ensures
            r.id == self.ID,
            r.name_id == self.name_ID,
            r.master_list_id == self.list_master_ID,
    {
        MasterListNameJoinRow { id: self.ID, master_list_id: self.list_master_ID, name_id: self.name_ID }
    }
}

/// A typed local row of one of the synchronised tables.
#[derive(Debug, PartialEq, Eq)]
pub enum TypedRow {
    Name(NameRow),
    MasterList(MasterListRow),
    MasterListNameJoin(MasterListNameJoinRow),
}

impl View for TypedRow {
    type V = RowView;

    open spec fn view(&self) -> RowView {
        match self {
            TypedRow::Name(r) => (
                TableMapping::Name,
                seq![("ID"@, r.id@), ("name"@, r.name@), ("code"@, r.code@)],
            ),
            TypedRow::MasterList(r) => (
                TableMapping::MasterList,
                seq![("ID"@, r.id@), ("description"@, r.name@), ("code"@, r.code@), ("note"@, r.description@)],
            ),
            TypedRow::MasterListNameJoin(r) => (
                TableMapping::MasterListNameJoin,
                seq![("ID"@, r.id@), ("name_ID"@, r.name_id@), ("list_master_ID"@, r.master_list_id@)],
            ),
        }
    }
}

impl TypedRow {
    pub fn id(&self) -> (r: &String)
        ensures
            r@ == row_id(self@),
    {
        match self {
            TypedRow::Name(r) => &r.id,
            TypedRow::MasterList(r) => &r.id,
            TypedRow::MasterListNameJoin(r) => &r.id,
        }
    }

    pub fn duplicate(&self) -> (r: Self)
        ensures
            r@ == self@,
    {
        match self {
            TypedRow::Name(r) => TypedRow::Name(
                NameRow { id: r.id.clone(), name: r.name.clone(), code: r.code.clone() },
            ),
            TypedRow::MasterList(r) => TypedRow::MasterList(
                MasterListRow {
                    id: r.id.clone(),
                    name: r.name.clone(),
                    code: r.code.clone(),
                    description: r.description.clone(),
                },
            ),
            TypedRow::MasterListNameJoin(r) => TypedRow::MasterListNameJoin(
                MasterListNameJoinRow {
                    id: r.id.clone(),
                    master_list_id: r.master_list_id.clone(),
                    name_id: r.name_id.clone(),
                },
            ),
        }
    }

    /// The row's field values under their legacy names, ready to be written as a payload.
    pub fn legacy_fields(&self) -> (r: Vec<(String, String)>)
        ensures
            crate::json::pair_views(r@) == self@.1,
    {
        let mut r: Vec<(String, String)> = Vec::new();
        match self {
            TypedRow::Name(n) => {
                r.push((text("ID"), n.id.clone()));
                r.push((text("name"), n.name.clone()));
                r.push((text("code"), n.code.clone()));
            },
            TypedRow::MasterList(m) => {
                r.push((text("ID"), m.id.clone()));
                r.push((text("description"), m.name.clone()));
                r.push((text("code"), m.code.clone()));
                r.push((text("note"), m.description.clone()));
            },
            TypedRow::MasterListNameJoin(j) => {
                r.push((text("ID"), j.id.clone()));
                r.push((text("name_ID"), j.name_id.clone()));
                r.push((text("list_master_ID"), j.master_list_id.clone()));
            },
        }
        assert(crate::json::pair_views(r@) =~= self@.1);
        r
    }
}

/// What integrating one pulled record does to the local store.
#[derive(Debug, PartialEq, Eq)]
pub enum IntegrationOp {
    Upsert { table_name: String, row: TypedRow },
    Delete { table_name: String, id: String },
    /// The record is well formed but carries no change that can be applied.
    Ignored(String),
}

pub enum OpView {
    Upsert(Seq<char>, RowView),
    Delete(Seq<char>, Seq<char>),
    Ignored(Seq<char>),
}

impl View for IntegrationOp {
    type V = OpView;

    open spec fn view(&self) -> OpView {
        match self {
            IntegrationOp::Upsert { table_name, row } => OpView::Upsert(table_name@, row@),
            IntegrationOp::Delete { table_name, id } => OpView::Delete(table_name@, id@),
            IntegrationOp::Ignored(reason) => OpView::Ignored(reason@),
        }
    }
}

impl IntegrationOp {
    pub fn duplicate(&self) -> (r: Self)
        ensures
            r@ == self@,
    {
        match self {
            IntegrationOp::Upsert { table_name, row } => IntegrationOp::Upsert {
                table_name: table_name.clone(),
                row: row.duplicate(),
            },
            IntegrationOp::Delete { table_name, id } => IntegrationOp::Delete {
                table_name: table_name.clone(),
                id: id.clone(),
            },
            IntegrationOp::Ignored(reason) => IntegrationOp::Ignored(reason.clone()),
        }
    }
}

} // verus!
