//! The export of the bill of materials: one sheet for each category that has
//! entries.
//!
//! The rows of hardware, electronics, custom parts and consumables stand by
//! description in ascending order, rows of the same description by name. The
//! rows of subassemblies, assemblies and tools stand by name.

use crate::aggregate::{Bom, BomModel};
use crate::bom::{BomPart, BomPartItem, PartLedger};
use crate::bom_consumables::{BomConsumable, BomConsumableItem, ConsumableLedger};
use crate::bom_tools::{BomTool, BomToolItem, ToolLedger};
use crate::names::{distinct_sorted, insert_name, strictly_sorted};
use crate::schema::views;
use crate::text::{decimal, push_decimal, str_eq, string_views};
use vstd::prelude::*;

verus! {

/// The name of the sheet of the fasteners.
pub const HARDWARE_SHEET: &'static str = "Hardware";

/// The name of the sheet of the electronic parts.
pub const ELECTRONICS_SHEET: &'static str = "Electronics";

/// The name of the sheet of the custom parts.
pub const CUSTOM_PARTS_SHEET: &'static str = "Custom Parts";

/// The name of the sheet of the subassemblies.
pub const SUBASSEMBLIES_SHEET: &'static str = "Subassemblies";

/// The name of the sheet of the assemblies.
pub const ASSEMBLIES_SHEET: &'static str = "Assemblies";

/// The name of the sheet of the tools.
pub const TOOLS_SHEET: &'static str = "Tools";

/// The name of the sheet of the consumables.
pub const CONSUMABLES_SHEET: &'static str = "Consumables";

/// The first column of the sheet of the fasteners.
pub const PART_NUMBER_COLUMN: &'static str = "Part Number";

/// The first column of every other sheet.
pub const NAME_COLUMN: &'static str = "Name";

/// The column of the descriptions.
pub const DESCRIPTION_COLUMN: &'static str = "Description";

/// The column of the totals.
pub const QUANTITY_COLUMN: &'static str = "Quantity";

/// The column of the brands.
pub const BRAND_COLUMN: &'static str = "Brand";

/// What parts two values of a line.
pub const COMMA: &'static str = ",";

/// What stands around a text.
pub const QUOTE: &'static str = "\"";

/// What ends a line.
pub const LINE_END: &'static str = "\n";

/// A cell of a sheet.
#[derive(Debug, Clone)]
pub enum Cell {
    Text(String),
    Number(u32),
}

/// The view of a [`Cell`].
pub enum CellModel {
    Text(Seq<char>),
    Number(nat),
}

impl View for Cell {
    type V = CellModel;

    open spec fn view(&self) -> CellModel {
        match self {
            Cell::Text(t) => CellModel::Text(t@),
            Cell::Number(n) => CellModel::Number(*n as nat),
        }
    }
}

/// A sheet: its name, the names of its columns, and its rows.
#[derive(Debug, Clone)]
pub struct Sheet {
    pub name: String,
    pub header: Vec<String>,
    pub rows: Vec<Vec<Cell>>,
}

/// The view of a [`Sheet`].
pub struct SheetModel {
    pub name: Seq<char>,
    pub header: Seq<Seq<char>>,
    pub rows: Seq<Seq<CellModel>>,
}

/// The views of the rows of a sheet.
pub open spec fn row_views(rows: Seq<Vec<Cell>>) -> Seq<Seq<CellModel>> {
    rows.map_values(|row: Vec<Cell>| views(row@))
}

impl View for Sheet {
    type V = SheetModel;

    open spec fn view(&self) -> SheetModel {
        SheetModel {
            name: self.name@,
            header: string_views(self.header@),
            rows: row_views(self.rows@),
        }
    }
}

// ---------------------------------------------------------------------------
// The order of the rows
// ---------------------------------------------------------------------------

/// Those of the first `n` rows whose key is `key`, in their order.
pub open spec fn rows_with_key(
    rows: Seq<Seq<CellModel>>,
    keys: Seq<Seq<char>>,
    key: Seq<char>,
    n: int,
) -> Seq<Seq<CellModel>>
    decreases n,
{
    if n <= 0 {
        Seq::empty()
    } else if n <= rows.len() && n <= keys.len() && keys[n - 1] == key {
        rows_with_key(rows, keys, key, n - 1).push(rows[n - 1])
    } else {
        rows_with_key(rows, keys, key, n - 1)
    }
}

/// The rows of each key of `order`, key after key.
pub open spec fn rows_in_order(
    rows: Seq<Seq<CellModel>>,
    keys: Seq<Seq<char>>,
    order: Seq<Seq<char>>,
) -> Seq<Seq<CellModel>>
    decreases order.len(),
{
    if order.len() == 0 {
        Seq::empty()
    } else {
        rows_in_order(rows, keys, order.drop_last()) + rows_with_key(
            rows,
            keys,
            order.last(),
            rows.len() as int,
        )
    }
}

/// The rows by key in ascending order, `keys` holding the key of each row;
/// rows of the same key keep their order.
pub open spec fn arranged(rows: Seq<Seq<CellModel>>, keys: Seq<Seq<char>>) -> Seq<Seq<CellModel>> {
    rows_in_order(rows, keys, distinct_sorted(keys))
}

fn copy_row(row: &Vec<Cell>) -> (out: Vec<Cell>)
    ensures
        views(out@) == views(row@),
{
    let mut out: Vec<Cell> = Vec::new();
    let mut i: usize = 0;
    while i < row.len()
        invariant
            i <= row.len(),
            out@.len() == i,
            forall|j: int| 0 <= j < i ==> (#[trigger] out@[j])@ == row@[j]@,
        decreases row.len() - i,
    {
        let cell = match &row[i] {
            Cell::Text(t) => Cell::Text(t.clone()),
            Cell::Number(n) => Cell::Number(*n),
        };
        out.push(cell);
        i += 1;
    }
    assert(views(out@) =~= views(row@));
    out
}

/// The rows by key in ascending order.
pub fn arrange(rows: &Vec<Vec<Cell>>, keys: &Vec<String>) -> (out: Vec<Vec<Cell>>)
    requires
        rows@.len() == keys@.len(),
    ensures
        row_views(out@) == arranged(row_views(rows@), string_views(keys@)),
{
    let ghost rs = row_views(rows@);
    let ghost ks = string_views(keys@);
    let mut order: Vec<String> = Vec::new();
    let mut i: usize = 0;
    assert(string_views(order@) =~= distinct_sorted(ks.take(0)));
    while i < keys.len()
        invariant
            i <= keys.len(),
            ks == string_views(keys@),
            string_views(order@) == distinct_sorted(ks.take(i as int)),
            strictly_sorted(string_views(order@)),
        decreases keys.len() - i,
    {
        proof {
            assert(ks.take(i + 1).drop_last() =~= ks.take(i as int));
            assert(ks.take(i + 1).last() == keys@[i as int]@);
        }
        insert_name(&mut order, keys[i].as_str());
        i += 1;
    }
    proof {
        assert(ks.take(keys.len() as int) =~= ks);
    }
    let ghost sorted = string_views(order@);
    let mut out: Vec<Vec<Cell>> = Vec::new();
    let mut k: usize = 0;
    assert(row_views(out@) =~= rows_in_order(rs, ks, sorted.take(0)));
    while k < order.len()
        invariant
            k <= order.len(),
            rows@.len() == keys@.len(),
            rs == row_views(rows@),
            ks == string_views(keys@),
            sorted == string_views(order@),
            row_views(out@) == rows_in_order(rs, ks, sorted.take(k as int)),
        decreases order.len() - k,
    {
        let ghost done = row_views(out@);
        proof {
            assert(sorted.take(k + 1).drop_last() =~= sorted.take(k as int));
            assert(sorted.take(k + 1).last() == order@[k as int]@);
        }
        let key = order[k].as_str();
        let mut j: usize = 0;
        assert(row_views(out@) =~= done + rows_with_key(rs, ks, key@, 0));
        while j < rows.len()
            invariant
                j <= rows.len(),
                rows@.len() == keys@.len(),
                rs == row_views(rows@),
                ks == string_views(keys@),
                row_views(out@) == done + rows_with_key(rs, ks, key@, j as int),
            decreases rows.len() - j,
        {
            if str_eq(keys[j].as_str(), key) {
                let ghost before = row_views(out@);
                let row = copy_row(&rows[j]);
                out.push(row);
                assert(row_views(out@) =~= before.push(rs[j as int]));
                assert(row_views(out@) =~= done + rows_with_key(rs, ks, key@, j + 1));
            }
            j += 1;
        }
        k += 1;
    }
    proof {
        assert(sorted.take(order.len() as int) =~= sorted);
    }
    out
}

// ---------------------------------------------------------------------------
// The rows of the ledgers
// ---------------------------------------------------------------------------

/// The row of a counted item: its name, its description, its total.
pub open spec fn part_cells(item: BomPart) -> Seq<CellModel> {
    seq![
        CellModel::Text(item.name),
        CellModel::Text(item.description),
        CellModel::Number(item.total_quantity),
    ]
}

/// The rows of the entries, in their order.
pub open spec fn part_rows_by_name(items: Seq<BomPart>) -> Seq<Seq<CellModel>> {
    items.map_values(|item: BomPart| part_cells(item))
}

/// The descriptions of the entries, in their order.
pub open spec fn part_descriptions(items: Seq<BomPart>) -> Seq<Seq<char>> {
    items.map_values(|item: BomPart| item.description)
}

/// The rows of the entries by description.
pub open spec fn part_rows_by_description(items: Seq<BomPart>) -> Seq<Seq<CellModel>> {
    arranged(part_rows_by_name(items), part_descriptions(items))
}

/// The row of a consumable: its name and its description.
pub open spec fn consumable_cells(item: BomConsumable) -> Seq<CellModel> {
    seq![CellModel::Text(item.name), CellModel::Text(item.description)]
}

/// The rows of the entries, in their order.
pub open spec fn consumable_rows_by_name(items: Seq<BomConsumable>) -> Seq<Seq<CellModel>> {
    items.map_values(|item: BomConsumable| consumable_cells(item))
}

/// The descriptions of the entries, in their order.
pub open spec fn consumable_descriptions(items: Seq<BomConsumable>) -> Seq<Seq<char>> {
    items.map_values(|item: BomConsumable| item.description)
}

/// The rows of the entries by description.
pub open spec fn consumable_rows_by_description(items: Seq<BomConsumable>) -> Seq<Seq<CellModel>> {
    arranged(consumable_rows_by_name(items), consumable_descriptions(items))
}

/// The row of a tool: its name and its brand.
pub open spec fn tool_cells(item: BomTool) -> Seq<CellModel> {
    seq![CellModel::Text(item.name), CellModel::Text(item.brand)]
}

/// The rows of the entries, in their order.
pub open spec fn tool_rows_by_name(items: Seq<BomTool>) -> Seq<Seq<CellModel>> {
    items.map_values(|item: BomTool| tool_cells(item))
}

fn part_rows(items: &Vec<BomPartItem>) -> (r: (Vec<Vec<Cell>>, Vec<String>))
    ensures
        row_views(r.0@) == part_rows_by_name(views(items@)),
        string_views(r.1@) == part_descriptions(views(items@)),
        r.0@.len() == r.1@.len(),
{
    let mut rows: Vec<Vec<Cell>> = Vec::new();
    let mut keys: Vec<String> = Vec::new();
    let mut i: usize = 0;
    while i < items.len()
        invariant
            i <= items.len(),
            rows@.len() == i,
            keys@.len() == i,
            forall|j: int| 0 <= j < i ==> views((#[trigger] rows@[j])@) == part_cells(items@[j]@),
            forall|j: int| 0 <= j < i ==> (#[trigger] keys@[j])@ == items@[j].description@,
        decreases items.len() - i,
    {
        let mut row: Vec<Cell> = Vec::new();
        row.push(Cell::Text(items[i].name.clone()));
        row.push(Cell::Text(items[i].description.clone()));
        row.push(Cell::Number(items[i].total_quantity));
        assert(views(row@) =~= part_cells(items@[i as int]@));
        rows.push(row);
        keys.push(items[i].description.clone());
        i += 1;
    }
    assert(row_views(rows@) =~= part_rows_by_name(views(items@)));
    assert(string_views(keys@) =~= part_descriptions(views(items@)));
    (rows, keys)
}

fn consumable_rows(items: &Vec<BomConsumableItem>) -> (r: (Vec<Vec<Cell>>, Vec<String>))
    ensures
        row_views(r.0@) == consumable_rows_by_name(views(items@)),
        string_views(r.1@) == consumable_descriptions(views(items@)),
        r.0@.len() == r.1@.len(),
{
    let mut rows: Vec<Vec<Cell>> = Vec::new();
    let mut keys: Vec<String> = Vec::new();
    let mut i: usize = 0;
    while i < items.len()
        invariant
            i <= items.len(),
            rows@.len() == i,
            keys@.len() == i,
            forall|j: int|
                0 <= j < i ==> views((#[trigger] rows@[j])@) == consumable_cells(items@[j]@),
            forall|j: int| 0 <= j < i ==> (#[trigger] keys@[j])@ == items@[j].description@,
        decreases items.len() - i,
    {
        let mut row: Vec<Cell> = Vec::new();
        row.push(Cell::Text(items[i].name.clone()));
        row.push(Cell::Text(items[i].description.clone()));
        assert(views(row@) =~= consumable_cells(items@[i as int]@));
        rows.push(row);
        keys.push(items[i].description.clone());
        i += 1;
    }
    assert(row_views(rows@) =~= consumable_rows_by_name(views(items@)));
    assert(string_views(keys@) =~= consumable_descriptions(views(items@)));
    (rows, keys)
}

fn tool_rows(items: &Vec<BomToolItem>) -> (rows: Vec<Vec<Cell>>)
    ensures
        row_views(rows@) == tool_rows_by_name(views(items@)),
{
    let mut rows: Vec<Vec<Cell>> = Vec::new();
    let mut i: usize = 0;
    while i < items.len()
        invariant
            i <= items.len(),
            rows@.len() == i,
            forall|j: int| 0 <= j < i ==> views((#[trigger] rows@[j])@) == tool_cells(items@[j]@),
        decreases items.len() - i,
    {
        let mut row: Vec<Cell> = Vec::new();
        row.push(Cell::Text(items[i].name.clone()));
        row.push(Cell::Text(items[i].brand.clone()));
        assert(views(row@) =~= tool_cells(items@[i as int]@));
        rows.push(row);
        i += 1;
    }
    assert(row_views(rows@) =~= tool_rows_by_name(views(items@)));
    rows
}

// ---------------------------------------------------------------------------
// The sheets
// ---------------------------------------------------------------------------

/// The names of the columns of a sheet of counted items.
pub open spec fn part_header(first: Seq<char>) -> Seq<Seq<char>> {
    seq![first, DESCRIPTION_COLUMN@, QUANTITY_COLUMN@]
}

/// A sheet of counted items whose rows stand by description; none where
/// there is no entry.
pub open spec fn described_parts_sheet(
    name: Seq<char>,
    first_column: Seq<char>,
    items: Seq<BomPart>,
) -> Seq<SheetModel> {
    if items.len() == 0 {
        Seq::empty()
    } else {
        seq![
            SheetModel {
                name,
                header: part_header(first_column),
                rows: part_rows_by_description(items),
            },
        ]
    }
}

/// A sheet of counted items whose rows stand by name; none where there is
/// no entry.
pub open spec fn named_parts_sheet(name: Seq<char>, items: Seq<BomPart>) -> Seq<SheetModel> {
    if items.len() == 0 {
        Seq::empty()
    } else {
        seq![SheetModel { name, header: part_header(NAME_COLUMN@), rows: part_rows_by_name(items) }]
    }
}

/// The sheet of the tools; none where there is no entry.
pub open spec fn tools_sheet(items: Seq<BomTool>) -> Seq<SheetModel> {
    if items.len() == 0 {
        Seq::empty()
    } else {
        seq![
            SheetModel {
                name: TOOLS_SHEET@,
                header: seq![NAME_COLUMN@, BRAND_COLUMN@],
                rows: tool_rows_by_name(items),
            },
        ]
    }
}

/// The sheet of the consumables; none where there is no entry.
pub open spec fn consumables_sheet(items: Seq<BomConsumable>) -> Seq<SheetModel> {
    if items.len() == 0 {
        Seq::empty()
    } else {
        seq![
            SheetModel {
                name: CONSUMABLES_SHEET@,
                header: seq![NAME_COLUMN@, DESCRIPTION_COLUMN@],
                rows: consumable_rows_by_description(items),
            },
        ]
    }
}

/// The sheets of a bill of materials, in their order.
pub open spec fn sheets_of(bom: BomModel) -> Seq<SheetModel> {
    described_parts_sheet(HARDWARE_SHEET@, PART_NUMBER_COLUMN@, bom.fasteners)
        + described_parts_sheet(ELECTRONICS_SHEET@, NAME_COLUMN@, bom.electronics)
        + described_parts_sheet(CUSTOM_PARTS_SHEET@, NAME_COLUMN@, bom.custom_parts)
        + named_parts_sheet(SUBASSEMBLIES_SHEET@, bom.subassemblies) + named_parts_sheet(
        ASSEMBLIES_SHEET@,
        bom.assemblies,
    ) + tools_sheet(bom.tools) + consumables_sheet(bom.consumables)
}

fn header_of(first: &str, second: &str, third: Option<&str>) -> (header: Vec<String>)
    ensures
        string_views(header@) == match third {
            Some(t) => seq![first@, second@, t@],
            None => seq![first@, second@],
        },
{
    let mut header: Vec<String> = Vec::new();
    header.push(first.to_owned());
    header.push(second.to_owned());
    match third {
        Some(t) => {
            header.push(t.to_owned());
            assert(string_views(header@) =~= seq![first@, second@, t@]);
        },
        None => {
            assert(string_views(header@) =~= seq![first@, second@]);
        },
    }
    header
}

fn push_described_parts(out: &mut Vec<Sheet>, name: &str, first_column: &str, ledger: &PartLedger)
    ensures
        views(final(out)@) == views(old(out)@) + described_parts_sheet(
            name@,
            first_column@,
            ledger@,
        ),
{
    let ghost before = views(out@);
    if ledger.len() == 0 {
        assert(views(out@) =~= before + described_parts_sheet(name@, first_column@, ledger@));
        return ;
    }
    let (rows, keys) = part_rows(ledger.items());
    let sheet = Sheet {
        name: name.to_owned(),
        header: header_of(first_column, DESCRIPTION_COLUMN, Some(QUANTITY_COLUMN)),
        rows: arrange(&rows, &keys),
    };
    out.push(sheet);
    assert(views(out@) =~= before + described_parts_sheet(name@, first_column@, ledger@));
}

fn push_named_parts(out: &mut Vec<Sheet>, name: &str, ledger: &PartLedger)
    ensures
        views(final(out)@) == views(old(out)@) + named_parts_sheet(name@, ledger@),
{
    let ghost before = views(out@);
    if ledger.len() == 0 {
        assert(views(out@) =~= before + named_parts_sheet(name@, ledger@));
        return ;
    }
    let (rows, _) = part_rows(ledger.items());
    let sheet = Sheet {
        name: name.to_owned(),
        header: header_of(NAME_COLUMN, DESCRIPTION_COLUMN, Some(QUANTITY_COLUMN)),
        rows,
    };
    out.push(sheet);
    assert(views(out@) =~= before + named_parts_sheet(name@, ledger@));
}

fn push_tools(out: &mut Vec<Sheet>, ledger: &ToolLedger)
    ensures
        views(final(out)@) == views(old(out)@) + tools_sheet(ledger@),
{
    let ghost before = views(out@);
    if ledger.len() == 0 {
        assert(views(out@) =~= before + tools_sheet(ledger@));
        return ;
    }
    let sheet = Sheet {
        name: TOOLS_SHEET.to_owned(),
        header: header_of(NAME_COLUMN, BRAND_COLUMN, None),
        rows: tool_rows(ledger.items()),
    };
    out.push(sheet);
    assert(views(out@) =~= before + tools_sheet(ledger@));
}

fn push_consumables(out: &mut Vec<Sheet>, ledger: &ConsumableLedger)
    ensures
        views(final(out)@) == views(old(out)@) + consumables_sheet(ledger@),
{
    let ghost before = views(out@);
    if ledger.len() == 0 {
        assert(views(out@) =~= before + consumables_sheet(ledger@));
        return ;
    }
    let (rows, keys) = consumable_rows(ledger.items());
    let sheet = Sheet {
        name: CONSUMABLES_SHEET.to_owned(),
        header: header_of(NAME_COLUMN, DESCRIPTION_COLUMN, None),
        rows: arrange(&rows, &keys),
    };
    out.push(sheet);
    assert(views(out@) =~= before + consumables_sheet(ledger@));
}

/// The sheets of a bill of materials: one for each category that has
/// entries.
pub fn export_sheets(bom: &Bom) -> (sheets: Vec<Sheet>)
    ensures
        views(sheets@) == sheets_of(bom@),
{
    let mut sheets: Vec<Sheet> = Vec::new();
    assert(views(sheets@) =~= Seq::<SheetModel>::empty());
    push_described_parts(&mut sheets, HARDWARE_SHEET, PART_NUMBER_COLUMN, &bom.fasteners);
    push_described_parts(&mut sheets, ELECTRONICS_SHEET, NAME_COLUMN, &bom.electronics);
    push_described_parts(&mut sheets, CUSTOM_PARTS_SHEET, NAME_COLUMN, &bom.custom_parts);
    push_named_parts(&mut sheets, SUBASSEMBLIES_SHEET, &bom.subassemblies);
    push_named_parts(&mut sheets, ASSEMBLIES_SHEET, &bom.assemblies);
    push_tools(&mut sheets, &bom.tools);
    push_consumables(&mut sheets, &bom.consumables);
    assert(views(sheets@) =~= sheets_of(bom@));
    sheets
}

// ---------------------------------------------------------------------------
// A sheet as text with comma-separated values
// ---------------------------------------------------------------------------

/// A cell as text: a text between quotes, a number in decimal.
pub open spec fn cell_text(cell: CellModel) -> Seq<char> {
    match cell {
        CellModel::Text(t) => QUOTE@ + t + QUOTE@,
        CellModel::Number(n) => decimal(n),
    }
}

/// The first `n` cells of a row as text, with commas between them.
pub open spec fn cells_text(row: Seq<CellModel>, n: int) -> Seq<char>
    decreases n,
{
    if n <= 0 || n > row.len() {
        Seq::empty()
    } else if n == 1 {
        cell_text(row[0])
    } else {
        cells_text(row, n - 1) + COMMA@ + cell_text(row[n - 1])
    }
}

/// The first `n` names of columns, with commas between them.
pub open spec fn header_text(header: Seq<Seq<char>>, n: int) -> Seq<char>
    decreases n,
{
    if n <= 0 || n > header.len() {
        Seq::empty()
    } else if n == 1 {
        header[0]
    } else {
        header_text(header, n - 1) + COMMA@ + header[n - 1]
    }
}

/// The first `n` rows as lines.
pub open spec fn rows_text(rows: Seq<Seq<CellModel>>, n: int) -> Seq<char>
    decreases n,
{
    if n <= 0 || n > rows.len() {
        Seq::empty()
    } else {
        rows_text(rows, n - 1) + cells_text(rows[n - 1], rows[n - 1].len() as int) + LINE_END@
    }
}

/// A sheet as text: the line of the names of its columns, then a line for
/// each row.
pub open spec fn csv_text(sheet: SheetModel) -> Seq<char> {
    header_text(sheet.header, sheet.header.len() as int) + LINE_END@ + rows_text(
        sheet.rows,
        sheet.rows.len() as int,
    )
}

fn push_cells(out: &mut String, row: &Vec<Cell>)
    ensures
        final(out)@ == old(out)@ + cells_text(views(row@), row@.len() as int),
{
    let ghost cells = views(row@);
    let mut i: usize = 0;
    assert(out@ =~= old(out)@ + cells_text(cells, 0));
    while i < row.len()
        invariant
            i <= row.len(),
            cells == views(row@),
            out@ == old(out)@ + cells_text(cells, i as int),
        decreases row.len() - i,
    {
        let ghost before = out@;
        if i > 0 {
            out.append(COMMA);
        }
        let ghost with_comma = out@;
        match &row[i] {
            Cell::Text(t) => {
                out.append(QUOTE);
                out.append(t.as_str());
                out.append(QUOTE);
                assert(out@ =~= with_comma + cell_text(cells[i as int]));
            },
            Cell::Number(n) => {
                push_decimal(out, *n);
            },
        }
        assert(out@ =~= old(out)@ + cells_text(cells, i + 1));
        i += 1;
    }
}

/// The sheet as text with comma-separated values.
pub fn sheet_csv(sheet: &Sheet) -> (text: String)
    ensures
        text@ == csv_text(sheet@),
{
    let ghost header = string_views(sheet.header@);
    let ghost rows = row_views(sheet.rows@);
    let mut text = String::new();
    let mut i: usize = 0;
    assert(text@ =~= header_text(header, 0));
    while i < sheet.header.len()
        invariant
            i <= sheet.header.len(),
            header == string_views(sheet.header@),
            text@ == header_text(header, i as int),
        decreases sheet.header.len() - i,
    {
        if i > 0 {
            text.append(COMMA);
        }
        text.append(sheet.header[i].as_str());
        assert(text@ =~= header_text(header, i + 1));
        i += 1;
    }
    text.append(LINE_END);
    let ghost head = text@;
    let mut k: usize = 0;
    assert(text@ =~= head + rows_text(rows, 0));
    while k < sheet.rows.len()
        invariant
            k <= sheet.rows.len(),
            rows == row_views(sheet.rows@),
            text@ == head + rows_text(rows, k as int),
        decreases sheet.rows.len() - k,
    {
        let ghost before = rows_text(rows, k as int);
        push_cells(&mut text, &sheet.rows[k]);
        text.append(LINE_END);
        assert(text@ =~= head + (before + cells_text(rows[k as int], rows[k as int].len() as int)
            + LINE_END@));
        k += 1;
    }
    text
}

} // verus!
