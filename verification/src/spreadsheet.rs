//! The spreadsheet overlay: a class and, now and then, a word on the
//! requirements for the advancements that a local CSV names.

use vstd::prelude::*;
use crate::advancements::Advancement;
use crate::advancements::AdvancementView;
use crate::loader::catalog_wf;
use crate::model::SpreadsheetInfo;
use crate::model::SpreadsheetInfoView;
use crate::strmap::StrMap;
use crate::strmap::StrSet;
use crate::text::str_eq;
use crate::text::views;

verus! {

/// The header record of a CSV text, as the `csv` crate reads it; nothing
/// where it cannot be read.
pub uninterp spec fn csv_header_of(content: Seq<char>) -> Option<Seq<Seq<char>>>;

/// The records of a CSV text after its header, as the `csv` crate reads
/// them: the fields of each record, or nothing for a record in fault.
pub uninterp spec fn csv_records_of(content: Seq<char>) -> Seq<Option<Seq<Seq<char>>>>;

/// The fields of each of a list of records.
pub open spec fn rows_view(rows: Seq<Option<Vec<String>>>) -> Seq<Option<Seq<Seq<char>>>> {
    Seq::new(
        rows.len(),
        |i: int|
            match rows[i] {
                Some(fields) => Some(views(fields@)),
                None => None,
            },
    )
}

/// Reads the header with `csv::Reader::headers` on a reader made by
/// `csv::Reader::from_reader`. The contract names the outcome and says
/// nothing else of it.
#[verifier::external_body]
fn csv_headers(content: &str) -> (r: Option<Vec<String>>)
    ensures
        match r {
            Some(h) => csv_header_of(content@) == Some(views(h@)),
            None => csv_header_of(content@) is None,
        },
{
    match csv::Reader::from_reader(content.as_bytes()).headers() {
        Ok(h) => Some(h.iter().map(|f| f.to_string()).collect()),
        Err(_) => None,
    }
}

/// Reads the records with `csv::Reader::records` on a reader made by
/// `csv::Reader::from_reader`. The contract names the outcome and says
/// nothing else of it.
#[verifier::external_body]
fn csv_records(content: &str) -> (r: Vec<Option<Vec<String>>>)
    ensures
        rows_view(r@) == csv_records_of(content@),
{
    csv::Reader::from_reader(content.as_bytes()).records().map(
        |rec| match rec {
            Ok(r) => Some(r.iter().map(|f| f.to_string()).collect()),
            Err(_) => None,
        },
    ).collect()
}

/// The column of the identifier.
pub open spec fn id_column() -> Seq<char> {
    "Actual Name"@
}

/// The column of the class.
pub open spec fn class_column() -> Seq<char> {
    "Class"@
}

/// The column of the requirement details.
pub open spec fn details_column() -> Seq<char> {
    "Actual Requirements (if different)"@
}

/// The first of the first `n` columns that is named `name`.
pub open spec fn column_of(headers: Seq<Seq<char>>, n: nat, name: Seq<char>) -> Option<int>
    decreases n,
{
    if n == 0 || n > headers.len() {
        None
    } else {
        let head = column_of(headers, (n - 1) as nat, name);
        if head is Some {
            head
        } else if headers[n - 1] == name {
            Some(n - 1)
        } else {
            None
        }
    }
}

pub proof fn lemma_column_of(headers: Seq<Seq<char>>, n: nat, m: nat, name: Seq<char>)
    requires
        n <= m <= headers.len(),
        column_of(headers, n, name) is Some,
    ensures
        column_of(headers, m, name) == column_of(headers, n, name),
    decreases m,
{
    if m > n {
        lemma_column_of(headers, n, (m - 1) as nat, name);
    }
}

/// Where the three columns are.
#[derive(Debug, PartialEq)]
pub struct Columns {
    pub id: usize,
    pub class: usize,
    pub details: usize,
}

/// The three columns of a header, where it has all of them.
pub open spec fn columns_of(headers: Seq<Seq<char>>) -> Option<(int, int, int)> {
    match (
        column_of(headers, headers.len(), id_column()),
        column_of(headers, headers.len(), class_column()),
        column_of(headers, headers.len(), details_column()),
    ) {
        (Some(a), Some(b), Some(c)) => Some((a, b, c)),
        _ => None,
    }
}

/// What a record says: the identifier and what belongs to it. A record in
/// fault, too short, or without identifier or class says nothing.
pub open spec fn row_entry(row: Option<Seq<Seq<char>>>, cols: (int, int, int)) -> Option<
    (Seq<char>, SpreadsheetInfoView),
> {
    match row {
        Some(fields) => if 0 <= cols.0 < fields.len() && 0 <= cols.1 < fields.len() && 0 <= cols.2
            < fields.len() && fields[cols.0].len() > 0 && fields[cols.1].len() > 0 {
            Some(
                (
                    fields[cols.0],
                    SpreadsheetInfoView {
                        class: fields[cols.1],
                        requirement_details: if fields[cols.2].len() > 0 {
                            Some(fields[cols.2])
                        } else {
                            None
                        },
                    },
                ),
            )
        } else {
            None
        },
        None => None,
    }
}

pub type SheetModel = Map<Seq<char>, SpreadsheetInfoView>;

/// The overlay after the first `n` records.
pub open spec fn sheet_after(rows: Seq<Option<Seq<Seq<char>>>>, n: nat, cols: (int, int, int)) -> SheetModel
    decreases n,
{
    if n == 0 || n > rows.len() {
        Map::empty()
    } else {
        let prev = sheet_after(rows, (n - 1) as nat, cols);
        match row_entry(rows[n - 1], cols) {
            Some((id, info)) => prev.insert(id, info),
            None => prev,
        }
    }
}

/// The classes that the first `n` records name, each once, in the order in
/// which they first occur.
pub open spec fn classes_after(
    rows: Seq<Option<Seq<Seq<char>>>>,
    n: nat,
    cols: (int, int, int),
) -> Seq<Seq<char>>
    decreases n,
{
    if n == 0 || n > rows.len() {
        Seq::empty()
    } else {
        let prev = classes_after(rows, (n - 1) as nat, cols);
        match row_entry(rows[n - 1], cols) {
            Some((_, info)) => if prev.contains(info.class) {
                prev
            } else {
                prev.push(info.class)
            },
            None => prev,
        }
    }
}

/// The overlay and the classes that a header and its records give. A
/// header without the three columns gives nothing.
pub open spec fn sheet_of(headers: Option<Seq<Seq<char>>>, rows: Seq<Option<Seq<Seq<char>>>>) -> (
    SheetModel,
    Seq<Seq<char>>,
) {
    match headers {
        Some(h) => match columns_of(h) {
            Some(cols) => (sheet_after(rows, rows.len(), cols), classes_after(
                rows,
                rows.len(),
                cols,
            )),
            None => (Map::empty(), Seq::empty()),
        },
        None => (Map::empty(), Seq::empty()),
    }
}

/// The overlay and the classes of a spreadsheet file; without a file, no
/// overlay and the single class `Unknown`.
pub open spec fn sheet_loaded(content: Option<Seq<char>>) -> (SheetModel, Seq<Seq<char>>) {
    match content {
        Some(c) => sheet_of(csv_header_of(c), csv_records_of(c)),
        None => (Map::empty(), seq!["Unknown"@]),
    }
}

/// The first column named `name`.
fn find_column(headers: &Vec<String>, name: &str) -> (r: Option<usize>)
    ensures
        match r {
            Some(c) => column_of(views(headers@), headers@.len() as nat, name@) == Some(c as int),
            None => column_of(views(headers@), headers@.len() as nat, name@) is None,
        },
{
    let ghost hs = views(headers@);
    let mut i: usize = 0;
    while i < headers.len()
        invariant
            i <= headers@.len(),
            hs == views(headers@),
            column_of(hs, i as nat, name@) is None,
        decreases headers@.len() - i,
    {
        if str_eq(headers[i].as_str(), name) {
            proof {
                assert(hs[i as int] == name@);
                lemma_column_of(hs, (i + 1) as nat, hs.len(), name@);
            }
            return Some(i);
        }
        i += 1;
    }
    None
}

/// The overlay and the classes that a header and its records give.
pub fn spreadsheet_from(headers: Option<&Vec<String>>, rows: &Vec<Option<Vec<String>>>) -> (r: (
    StrMap<SpreadsheetInfo>,
    Vec<String>,
))
    ensures
        r.0.wf(),
        r.0.model() == sheet_of(
            match headers {
                Some(h) => Some(views(h@)),
                None => None,
            },
            rows_view(rows@),
        ).0,
        views(r.1@) == sheet_of(
            match headers {
                Some(h) => Some(views(h@)),
                None => None,
            },
            rows_view(rows@),
        ).1,
{
    let mut sheet: StrMap<SpreadsheetInfo> = StrMap::new();
    let mut classes = StrSet::new();
    assert(sheet.model() =~= Map::<Seq<char>, SpreadsheetInfoView>::empty());
    assert(views(classes.items@) =~= Seq::<Seq<char>>::empty());
    let h = match headers {
        Some(h) => h,
        None => {
            return (sheet, classes.items);
        },
    };
    let columns = match (
        find_column(h, "Actual Name"),
        find_column(h, "Class"),
        find_column(h, "Actual Requirements (if different)"),
    ) {
        (Some(id), Some(class), Some(details)) => Columns { id, class, details },
        _ => {
            return (sheet, classes.items);
        },
    };
    let ghost cols = (columns.id as int, columns.class as int, columns.details as int);
    let ghost rvs = rows_view(rows@);
    let mut i: usize = 0;
    while i < rows.len()
        invariant
            i <= rows@.len(),
            sheet.wf(),
            classes.wf(),
            rvs == rows_view(rows@),
            cols == (columns.id as int, columns.class as int, columns.details as int),
            sheet.model() == sheet_after(rvs, i as nat, cols),
            classes.order() == classes_after(rvs, i as nat, cols),
        decreases rows@.len() - i,
    {
        match &rows[i] {
            Some(fields) => {
                assert(rvs[i as int] == Some(views(fields@)));
                if columns.id < fields.len() && columns.class < fields.len() && columns.details
                    < fields.len() {
                    let id = &fields[columns.id];
                    let class = &fields[columns.class];
                    let details = &fields[columns.details];
                    assert(views(fields@)[cols.0] == id@);
                    assert(views(fields@)[cols.1] == class@);
                    assert(views(fields@)[cols.2] == details@);
                    if !id.as_str().is_empty() && !class.as_str().is_empty() {
                        let ghost before = sheet;
                        let ghost seen = classes.order();
                        proof {
                            assert(seen.contains(class@) == classes@.contains(class@)) by {
                                if seen.contains(class@) {
                                    let k = choose|k: int| 0 <= k < seen.len() && seen[k] == class@;
                                    assert(classes.items@[k]@ == class@);
                                }
                                if classes.has(class@) {
                                    let k = choose|k: int|
                                        0 <= k < classes.items@.len()
                                            && #[trigger] classes.items@[k]@ == class@;
                                    assert(seen[k] == class@);
                                }
                            }
                        }
                        classes.insert(class.clone());
                        let info = SpreadsheetInfo {
                            class: class.clone(),
                            requirement_details: if details.as_str().is_empty() {
                                None
                            } else {
                                Some(details.clone())
                            },
                        };
                        sheet.insert(id.clone(), info);
                        proof {
                            StrMap::lemma_model_insert(before, sheet, id@, info);
                        }
                    }
                }
            },
            None => {
                assert(rvs[i as int] is None);
            },
        }
        i += 1;
    }
    (sheet, classes.items)
}

/// The overlay and the classes of a spreadsheet file with the given
/// content; `None` where there is no file.
pub fn load_spreadsheet(content: Option<&str>) -> (r: (StrMap<SpreadsheetInfo>, Vec<String>))
    ensures
        r.0.wf(),
        r.0.model() == sheet_loaded(content.deep_view()).0,
        views(r.1@) == sheet_loaded(content.deep_view()).1,
{
    match content {
        Some(c) => {
            let headers = csv_headers(c);
            let rows = csv_records(c);
            match &headers {
                Some(h) => spreadsheet_from(Some(h), &rows),
                None => spreadsheet_from(None, &rows),
            }
        },
        None => {
            let sheet: StrMap<SpreadsheetInfo> = StrMap::new();
            let mut classes: Vec<String> = Vec::new();
            classes.push("Unknown".to_owned());
            assert(sheet.model() =~= Map::<Seq<char>, SpreadsheetInfoView>::empty());
            assert(views(classes@) =~= seq!["Unknown"@]);
            (sheet, classes)
        },
    }
}

/// The catalog of the first `n` advancements with the overlay applied and
/// the rest as they were.
pub open spec fn overlaid(
    old: StrMap<Advancement>,
    new: StrMap<Advancement>,
    sheet: SheetModel,
    n: int,
) -> bool {
    &&& new.keys == old.keys
    &&& new.values@.len() == old.values@.len()
    &&& forall|i: int|
        0 <= i < n ==> (#[trigger] new.values@[i])@ == (if sheet.dom().contains(old.keys@[i]@) {
            AdvancementView { spreadsheet_info: sheet[old.keys@[i]@], ..old.values@[i]@ }
        } else {
            old.values@[i]@
        })
    &&& forall|i: int| n <= i < old.values@.len() ==> (#[trigger] new.values@[i]) == old.values@[i]
}

/// Gives each advancement that the overlay names what the overlay says of
/// it.
pub fn assign_spreadsheet_info(
    advancements: &mut StrMap<Advancement>,
    spreadsheet_data: &StrMap<SpreadsheetInfo>,
)
    requires
        catalog_wf(*old(advancements)),
        spreadsheet_data.wf(),
    ensures
        catalog_wf(*final(advancements)),
        overlaid(
            *old(advancements),
            *final(advancements),
            spreadsheet_data.model(),
            old(advancements).values@.len() as int,
        ),
{
    let ghost before = *advancements;
    let ghost sheet = spreadsheet_data.model();
    let n = advancements.keys.len();
    let mut i: usize = 0;
    while i < n
        invariant
            i <= n,
            n == before.keys@.len(),
            catalog_wf(*advancements),
            spreadsheet_data.wf(),
            sheet == spreadsheet_data.model(),
            before == *old(advancements),
            overlaid(before, *advancements, sheet, i as int),
        decreases n - i,
    {
        proof {
            spreadsheet_data.lemma_model_lookup(advancements.keys@[i as int]@);
        }
        let ghost prev = *advancements;
        match spreadsheet_data.get(advancements.keys[i].as_str()) {
            Some(info) => {
                let copy = info.duplicate();
                advancements.values[i].spreadsheet_info = copy;
            },
            None => {},
        }
        proof {
            assert forall|k: int| 0 <= k < advancements.values@.len() implies (
            #[trigger] advancements.values@[k]).wf() by {
                if k != i {
                    assert(advancements.values@[k] == prev.values@[k]);
                }
            }
            assert forall|k: int| 0 <= k < i + 1 implies (#[trigger] advancements.values@[k])@ == (
            if sheet.dom().contains(before.keys@[k]@) {
                AdvancementView { spreadsheet_info: sheet[before.keys@[k]@], ..before.values@[k]@ }
            } else {
                before.values@[k]@
            }) by {
                if k != i {
                    assert(advancements.values@[k] == prev.values@[k]);
                }
            }
            assert forall|k: int| i + 1 <= k < before.values@.len() implies (
            #[trigger] advancements.values@[k]) == before.values@[k] by {
                assert(advancements.values@[k] == prev.values@[k]);
            }
        }
        i += 1;
    }
}

} // verus!
