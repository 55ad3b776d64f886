use crate::parser_config::ValueType;
use vstd::prelude::*;

verus! {

/// What a cell holds once its token has been looked at.
#[derive(Debug, Clone, PartialEq, Eq)]
pub enum CellData {
    /// No value: the token was empty, or the cell has not been filled.
    Absent,
    /// The token itself, as the value of a text column.
    Text(String),
    /// The token of a column whose type asks for parsing: the text that the
    /// value system is to turn into a value of the cell's type.
    Unparsed(String),
}

/// What a [`CellData`] holds, with its text as a character sequence.
pub enum CellDataView {
    Absent,
    Text(Seq<char>),
    Unparsed(Seq<char>),
}

impl View for CellData {
    type V = CellDataView;

    open spec fn view(&self) -> CellDataView {
        match self {
            CellData::Absent => CellDataView::Absent,
            CellData::Text(s) => CellDataView::Text(s@),
            CellData::Unparsed(s) => CellDataView::Unparsed(s@),
        }
    }
}

/// One cell of a row: the type, position and header of its column, and what
/// it holds.
#[derive(Debug, Clone, PartialEq, Eq)]
pub struct DataCell {
    pub dtype: ValueType,
    pub idx: usize,
    pub name: String,
    pub data: CellData,
}

/// What a [`DataCell`] says, with its texts as character sequences.
pub struct DataCellView {
    pub dtype: ValueType,
    pub idx: usize,
    pub name: Seq<char>,
    pub data: CellDataView,
}

impl View for DataCell {
    type V = DataCellView;

    open spec fn view(&self) -> DataCellView {
        DataCellView { dtype: self.dtype, idx: self.idx, name: self.name@, data: self.data@ }
    }
}

impl DataCell {
    /// A cell without a value.
    pub fn new_without_data(dtype: ValueType, name: String, idx: usize) -> (c: Self)
        ensures
            c@ == (DataCellView { dtype, idx, name: name@, data: CellDataView::Absent }),
    {
        Self { dtype, idx, name, data: CellData::Absent }
    }

    pub fn new(dtype: ValueType, name: String, idx: usize, data: CellData) -> (c: Self)
        ensures
            c@ == (DataCellView { dtype, idx, name: name@, data: data@ }),
    {
        Self { dtype, idx, name, data }
    }

    /// A copy of the cell with `data` in place of what it holds.
    pub fn with_data(&self, data: CellData) -> (c: Self)
        ensures
            c@ == (DataCellView {
                dtype: self.dtype,
                idx: self.idx,
                name: self.name@,
                data: data@,
            }),
    {
        Self { dtype: self.dtype, idx: self.idx, name: self.name.clone(), data }
    }

    pub fn get_name(&self) -> (name: &String)
        ensures
            name@ == self.name@,
    {
        &self.name
    }

    pub fn get_data(&self) -> (data: &CellData)
        ensures
            data@ == self.data@,
    {
        &self.data
    }
}

/// The cells of one row, in column order.
#[derive(Debug, Clone, PartialEq, Eq)]
pub struct DataCellRow(pub Vec<DataCell>);

/// What a run of cells says.
pub open spec fn cell_views(cells: Seq<DataCell>) -> Seq<DataCellView> {
    cells.map_values(|c: DataCell| c@)
}

impl View for DataCellRow {
    type V = Seq<DataCellView>;

    open spec fn view(&self) -> Seq<DataCellView> {
        cell_views(self.0@)
    }
}

impl DataCellRow {
    /// The row without cells.
    pub fn new() -> (row: Self)
        ensures
            row@ == Seq::<DataCellView>::empty(),
    {
        let row = DataCellRow(Vec::new());
        assert(row@ =~= Seq::<DataCellView>::empty());
        row
    }

    /// The row without cells, with room for `capacity` of them.
    pub fn with_capacity(capacity: usize) -> (row: Self)
        ensures
            row@ == Seq::<DataCellView>::empty(),
    {
        let row = DataCellRow(Vec::with_capacity(capacity));
        assert(row@ =~= Seq::<DataCellView>::empty());
        row
    }

    /// Appends `cell`.
    pub fn push(&mut self, cell: DataCell)
        ensures
            final(self)@ == old(self)@.push(cell@),
    {
        self.0.push(cell);
        assert(self@ =~= old(self)@.push(cell@));
    }

    /// The number of cells.
    pub fn len(&self) -> (n: usize)
        ensures
            n == self@.len(),
    {
        self.0.len()
    }

    /// The first cell whose header is `name`.
    pub fn get_by_name(&self, name: &str) -> (r: Option<&DataCell>)
        ensures
            match r {
                Some(cell) => exists|i: int|
                    0 <= i < self@.len() && cell@ == self@[i] && (#[trigger] self@[i]).name == name@
                        && forall|j: int| 0 <= j < i ==> (#[trigger] self@[j]).name != name@,
                None => forall|i: int| 0 <= i < self@.len() ==> (#[trigger] self@[i]).name != name@,
            },
    {
        let wanted = String::from_str(name);
        let mut i: usize = 0;
        while i < self.0.len()
            invariant
                i <= self.0@.len(),
                wanted@ == name@,
                forall|j: int| 0 <= j < i ==> (#[trigger] self@[j]).name != name@,
            decreases self.0.len() - i,
        {
            if self.0[i].name == wanted {
                assert(self.0@[i as int]@ == self@[i as int]);
                return Some(&self.0[i]);
            }
            assert(self@[i as int].name != name@);
            i += 1;
        }
        None
    }
}

} // verus!
