//! The benchmark's datasets, and how a series is read out of a table.

use vstd::prelude::*;

use crate::text;

verus! {

/// One dataset: where its series stands, how many rows are held out, and what it is about.
#[derive(Clone, Copy, Debug)]
pub struct DatasetSpec {
    pub name: &'static str,
    pub file: &'static str,
    pub col: &'static str,
    pub test_rows: usize,
    pub freq: &'static str,
    pub domain: &'static str,
}

/// All datasets, in the order in which they are reported.
pub open spec fn dataset_list() -> Seq<DatasetSpec> {
    seq![
        DatasetSpec { name: "ETTh1", file: "ETTh1.csv", col: "OT", test_rows: 2880, freq: "1h", domain: "Energy" },
        DatasetSpec { name: "ETTh2", file: "ETTh2.csv", col: "OT", test_rows: 2880, freq: "1h", domain: "Energy" },
        DatasetSpec { name: "ETTm1", file: "ETTm1.csv", col: "OT", test_rows: 11520, freq: "15min", domain: "Energy" },
        DatasetSpec { name: "ETTm2", file: "ETTm2.csv", col: "OT", test_rows: 11520, freq: "15min", domain: "Energy" },
        DatasetSpec { name: "electricity", file: "electricity_h1.csv", col: "value", test_rows: 2880, freq: "1h", domain: "Energy" },
        DatasetSpec { name: "solar", file: "solar_1h.csv", col: "value", test_rows: 2000, freq: "1h", domain: "Energy" },
        DatasetSpec { name: "wind", file: "wind_farms_h1.csv", col: "value", test_rows: 2000, freq: "1h", domain: "Energy" },
        DatasetSpec { name: "aus_electricity", file: "aus_electricity_30min.csv", col: "value", test_rows: 20000, freq: "30min", domain: "Energy" },
        DatasetSpec { name: "weather", file: "weather_s1.csv", col: "value", test_rows: 1000, freq: "1h", domain: "Climate" },
        DatasetSpec { name: "weather_10min", file: "weather_10min.csv", col: "OT", test_rows: 10560, freq: "10min", domain: "Climate" },
        DatasetSpec { name: "jena", file: "jena_10min.csv", col: "value", test_rows: 10560, freq: "10min", domain: "Climate" },
        DatasetSpec { name: "melbourne_temp", file: "melbourne_temp.csv", col: "value", test_rows: 365, freq: "1d", domain: "Climate" },
        DatasetSpec { name: "co2", file: "co2_weekly.csv", col: "value", test_rows: 300, freq: "1w", domain: "Climate" },
        DatasetSpec { name: "sunspot_daily", file: "sunspot_daily.csv", col: "value", test_rows: 5000, freq: "1d", domain: "Astronomy" },
        DatasetSpec { name: "sunspot_monthly", file: "sunspot_monthly.csv", col: "value", test_rows: 300, freq: "1mo", domain: "Astronomy" },
        DatasetSpec { name: "ili", file: "ili.csv", col: "OT", test_rows: 200, freq: "1w", domain: "Health" },
        DatasetSpec { name: "exchange", file: "exchange_rate.csv", col: "OT", test_rows: 1500, freq: "1d", domain: "Finance" },
        DatasetSpec { name: "m4_daily", file: "m4_daily.csv", col: "value", test_rows: 2000, freq: "1d", domain: "Finance" },
        DatasetSpec { name: "traffic", file: "traffic_h1.csv", col: "OT", test_rows: 2880, freq: "1h", domain: "Transport" },
        DatasetSpec { name: "pedestrian", file: "pedestrian_counts.csv", col: "value", test_rows: 5000, freq: "1h", domain: "Transport" },
        DatasetSpec { name: "saugeeen", file: "saugeeen_river.csv", col: "value", test_rows: 2000, freq: "1d", domain: "Hydrology" },
    ]
}

/// All datasets, in the order in which they are reported.
pub fn datasets() -> (r: Vec<DatasetSpec>)
    ensures
        r@ == dataset_list(),
{
    let r: Vec<DatasetSpec> = vec![
        DatasetSpec { name: "ETTh1", file: "ETTh1.csv", col: "OT", test_rows: 2880, freq: "1h", domain: "Energy" },
        DatasetSpec { name: "ETTh2", file: "ETTh2.csv", col: "OT", test_rows: 2880, freq: "1h", domain: "Energy" },
        DatasetSpec { name: "ETTm1", file: "ETTm1.csv", col: "OT", test_rows: 11520, freq: "15min", domain: "Energy" },
        DatasetSpec { name: "ETTm2", file: "ETTm2.csv", col: "OT", test_rows: 11520, freq: "15min", domain: "Energy" },
        DatasetSpec { name: "electricity", file: "electricity_h1.csv", col: "value", test_rows: 2880, freq: "1h", domain: "Energy" },
        DatasetSpec { name: "solar", file: "solar_1h.csv", col: "value", test_rows: 2000, freq: "1h", domain: "Energy" },
        DatasetSpec { name: "wind", file: "wind_farms_h1.csv", col: "value", test_rows: 2000, freq: "1h", domain: "Energy" },
        DatasetSpec { name: "aus_electricity", file: "aus_electricity_30min.csv", col: "value", test_rows: 20000, freq: "30min", domain: "Energy" },
        DatasetSpec { name: "weather", file: "weather_s1.csv", col: "value", test_rows: 1000, freq: "1h", domain: "Climate" },
        DatasetSpec { name: "weather_10min", file: "weather_10min.csv", col: "OT", test_rows: 10560, freq: "10min", domain: "Climate" },
        DatasetSpec { name: "jena", file: "jena_10min.csv", col: "value", test_rows: 10560, freq: "10min", domain: "Climate" },
        DatasetSpec { name: "melbourne_temp", file: "melbourne_temp.csv", col: "value", test_rows: 365, freq: "1d", domain: "Climate" },
        DatasetSpec { name: "co2", file: "co2_weekly.csv", col: "value", test_rows: 300, freq: "1w", domain: "Climate" },
        DatasetSpec { name: "sunspot_daily", file: "sunspot_daily.csv", col: "value", test_rows: 5000, freq: "1d", domain: "Astronomy" },
        DatasetSpec { name: "sunspot_monthly", file: "sunspot_monthly.csv", col: "value", test_rows: 300, freq: "1mo", domain: "Astronomy" },
        DatasetSpec { name: "ili", file: "ili.csv", col: "OT", test_rows: 200, freq: "1w", domain: "Health" },
        DatasetSpec { name: "exchange", file: "exchange_rate.csv", col: "OT", test_rows: 1500, freq: "1d", domain: "Finance" },
        DatasetSpec { name: "m4_daily", file: "m4_daily.csv", col: "value", test_rows: 2000, freq: "1d", domain: "Finance" },
        DatasetSpec { name: "traffic", file: "traffic_h1.csv", col: "OT", test_rows: 2880, freq: "1h", domain: "Transport" },
        DatasetSpec { name: "pedestrian", file: "pedestrian_counts.csv", col: "value", test_rows: 5000, freq: "1h", domain: "Transport" },
        DatasetSpec { name: "saugeeen", file: "saugeeen_river.csv", col: "value", test_rows: 2000, freq: "1d", domain: "Hydrology" },
    ];
    assert(r@ =~= dataset_list());
    r
}

/// The place of the first dataset of the given name, from `from` on; their number where there
/// is none.
pub open spec fn place_of(list: Seq<DatasetSpec>, name: Seq<char>, from: int) -> int
    decreases list.len() - from,
{
    if from >= list.len() {
        list.len() as int
    } else if list[from].name@ == name {
        from
    } else {
        place_of(list, name, from + 1)
    }
}

/// The dataset of the given name.
pub fn find(name: &str) -> (r: Option<DatasetSpec>)
    ensures
        ({
            let at = place_of(dataset_list(), name@, 0);
            match r {
                Some(d) => at < dataset_list().len() && d == dataset_list()[at],
                None => at == dataset_list().len(),
            }
        }),
{
    let all: Vec<DatasetSpec> = datasets();
    let mut i: usize = 0;
    while i < all.len()
        invariant
            i <= all@.len(),
            all@ == dataset_list(),
            place_of(dataset_list(), name@, 0) == place_of(dataset_list(), name@, i as int),
        decreases all@.len() - i,
    {
        if text::same(all[i].name, name) {
            return Some(all[i]);
        }
        i += 1;
    }
    None
}

/// Whether a place of the list is the first of its name.
pub open spec fn first_of_its_name(list: Seq<DatasetSpec>, i: int) -> bool {
    forall|j: int| 0 <= j < i ==> (#[trigger] list[j]).name@ != list[i].name@
}

proof fn lemma_place_of(list: Seq<DatasetSpec>, i: int, from: int)
    requires
        0 <= from <= i < list.len(),
        first_of_its_name(list, i),
    ensures
        place_of(list, list[i].name@, from) == i,
    decreases i - from,
{
    if from < i {
        assert(list[from].name@ != list[i].name@);
        lemma_place_of(list, i, from + 1);
    }
}

/// No two datasets share a name, so that each is found by its own.
pub proof fn law_datasets_found_by_name(i: int)
    requires
        0 <= i < dataset_list().len(),
    ensures
        place_of(dataset_list(), dataset_list()[i].name@, 0) == i,
{
    lemma_names_differ();
    lemma_place_of(dataset_list(), i, 0);
}

proof fn lemma_names_differ()
    ensures
        forall|i: int| 0 <= i < dataset_list().len() ==> #[trigger] first_of_its_name(dataset_list(), i),
{
    let list = dataset_list();
    reveal_strlit("ETTh1");
    reveal_strlit("ETTh2");
    reveal_strlit("ETTm1");
    reveal_strlit("ETTm2");
    reveal_strlit("electricity");
    reveal_strlit("solar");
    reveal_strlit("wind");
    reveal_strlit("aus_electricity");
    reveal_strlit("weather");
    reveal_strlit("weather_10min");
    reveal_strlit("jena");
    reveal_strlit("melbourne_temp");
    reveal_strlit("co2");
    reveal_strlit("sunspot_daily");
    reveal_strlit("sunspot_monthly");
    reveal_strlit("ili");
    reveal_strlit("exchange");
    reveal_strlit("m4_daily");
    reveal_strlit("traffic");
    reveal_strlit("pedestrian");
    reveal_strlit("saugeeen");
    assert("ETTh1"@.len() == 5);
    assert("ETTh2"@.len() == 5);
    assert("ETTm1"@.len() == 5);
    assert("ETTm2"@.len() == 5);
    assert("electricity"@.len() == 11);
    assert("solar"@.len() == 5);
    assert("wind"@.len() == 4);
    assert("aus_electricity"@.len() == 15);
    assert("weather"@.len() == 7);
    assert("weather_10min"@.len() == 13);
    assert("jena"@.len() == 4);
    assert("melbourne_temp"@.len() == 14);
    assert("co2"@.len() == 3);
    assert("sunspot_daily"@.len() == 13);
    assert("sunspot_monthly"@.len() == 15);
    assert("ili"@.len() == 3);
    assert("exchange"@.len() == 8);
    assert("m4_daily"@.len() == 8);
    assert("traffic"@.len() == 7);
    assert("pedestrian"@.len() == 10);
    assert("saugeeen"@.len() == 8);
    assert("ETTh1"@[0] == 'E');
    assert("ETTh1"@[3] == 'h');
    assert("ETTh1"@[4] == '1');
    assert("ETTh2"@[0] == 'E');
    assert("ETTh2"@[3] == 'h');
    assert("ETTh2"@[4] == '2');
    assert("ETTm1"@[0] == 'E');
    assert("ETTm1"@[3] == 'm');
    assert("ETTm1"@[4] == '1');
    assert("ETTm2"@[0] == 'E');
    assert("ETTm2"@[3] == 'm');
    assert("ETTm2"@[4] == '2');
    assert("solar"@[0] == 's');
    assert("solar"@[3] == 'a');
    assert("solar"@[4] == 'r');
    assert("wind"@[0] == 'w');
    assert("jena"@[0] == 'j');
    assert("aus_electricity"@[0] == 'a');
    assert("sunspot_monthly"@[0] == 's');
    assert("weather"@[0] == 'w');
    assert("traffic"@[0] == 't');
    assert("weather_10min"@[0] == 'w');
    assert("sunspot_daily"@[0] == 's');
    assert("co2"@[0] == 'c');
    assert("ili"@[0] == 'i');
    assert("exchange"@[0] == 'e');
    assert("m4_daily"@[0] == 'm');
    assert("saugeeen"@[0] == 's');
    assert forall|i: int, j: int| 0 <= j < i < list.len() implies (#[trigger] list[j]).name@ != (
    #[trigger] list[i]).name@ by {}
}

/// Unicode white space.
pub open spec fn is_space(c: char) -> bool {
    let u = c as u32;
    ||| 9 <= u <= 13
    ||| u == 0x20
    ||| u == 0x85
    ||| u == 0xa0
    ||| u == 0x1680
    ||| 0x2000 <= u <= 0x200a
    ||| u == 0x2028
    ||| u == 0x2029
    ||| u == 0x202f
    ||| u == 0x205f
    ||| u == 0x3000
}

/// `s` without leading white space.
pub open spec fn trimmed_start(s: Seq<char>) -> Seq<char>
    decreases s.len(),
{
    if s.len() > 0 && is_space(s[0]) {
        trimmed_start(s.drop_first())
    } else {
        s
    }
}

/// `s` without trailing white space.
pub open spec fn trimmed_end(s: Seq<char>) -> Seq<char>
    decreases s.len(),
{
    if s.len() > 0 && is_space(s.last()) {
        trimmed_end(s.drop_last())
    } else {
        s
    }
}

/// `s` without white space at either end.
pub open spec fn trimmed(s: Seq<char>) -> Seq<char> {
    trimmed_end(trimmed_start(s))
}

fn space(c: char) -> (r: bool)
    ensures
        r == is_space(c),
{
    let u: u32 = c as u32;
    (9 <= u && u <= 13) || u == 0x20 || u == 0x85 || u == 0xa0 || u == 0x1680 || (0x2000 <= u && u <= 0x200a) || u
        == 0x2028 || u == 0x2029 || u == 0x202f || u == 0x205f || u == 0x3000
}

/// `s` without white space at either end.
pub fn trim(s: &str) -> (r: &str)
    ensures
        r@ == trimmed(s@),
{
    let n: usize = s.unicode_len();
    let mut from: usize = 0;
    assert(s@.subrange(0, n as int) =~= s@);
    while from < n && space(s.get_char(from))
        invariant
            from <= n == s@.len(),
            trimmed_start(s@) == trimmed_start(s@.subrange(from as int, n as int)),
        decreases n - from,
    {
        assert(s@.subrange(from as int, n as int).drop_first() =~= s@.subrange(from + 1, n as int));
        from += 1;
    }
    assert(trimmed_start(s@) == s@.subrange(from as int, n as int));
    let mut to: usize = n;
    while to > from && space(s.get_char(to - 1))
        invariant
            from <= to <= n == s@.len(),
            trimmed(s@) == trimmed_end(s@.subrange(from as int, to as int)),
        decreases to,
    {
        assert(s@.subrange(from as int, to as int).drop_last() =~= s@.subrange(from as int, to - 1));
        to -= 1;
    }
    s.substring_char(from, to)
}

/// The place of the first header that equals `col`, from `from` on; their number where there
/// is none.
pub open spec fn column_place(headers: Seq<Seq<char>>, col: Seq<char>, from: int) -> int
    decreases headers.len() - from,
{
    if from >= headers.len() {
        headers.len() as int
    } else if headers[from] == col {
        from
    } else {
        column_place(headers, col, from + 1)
    }
}

/// The strings of a row.
pub open spec fn row_texts(row: Seq<String>) -> Seq<Seq<char>> {
    row.map_values(|s: String| s@)
}

/// The strings of all rows.
pub open spec fn rows_texts(rows: Seq<Vec<String>>) -> Seq<Seq<Seq<char>>> {
    rows.map_values(|row: Vec<String>| row_texts(row@))
}

/// The cells of column `at` of the first `m` records, trimmed, blank cells and missing ones
/// left out.
pub open spec fn column_cells(records: Seq<Seq<Seq<char>>>, at: int, m: nat) -> Seq<Seq<char>>
    decreases m,
{
    if m == 0 {
        Seq::empty()
    } else {
        let before = column_cells(records, at, (m - 1) as nat);
        let row = records[m - 1];
        if at < row.len() && trimmed(row[at]).len() > 0 {
            before.push(trimmed(row[at]))
        } else {
            before
        }
    }
}

/// The cells of the column `col` of a table, trimmed, blank cells and missing ones left out;
/// nothing where the table has no such column.
pub fn series_cells(headers: &Vec<String>, records: &Vec<Vec<String>>, col: &str) -> (r: Option<Vec<String>>)
    ensures
        ({
            let at = column_place(row_texts(headers@), col@, 0);
            match r {
                Some(cells) => at < headers@.len() && row_texts(cells@) == column_cells(
                    rows_texts(records@),
                    at,
                    records@.len(),
                ),
                None => at == headers@.len(),
            }
        }),
{
    let mut at: usize = 0;
    while at < headers.len() && !text::same(headers[at].as_str(), col)
        invariant
            at <= headers@.len(),
            column_place(row_texts(headers@), col@, 0) == column_place(row_texts(headers@), col@, at as int),
        decreases headers@.len() - at,
    {
        assert(row_texts(headers@)[at as int] == headers@[at as int]@);
        at += 1;
    }
    if at == headers.len() {
        return None;
    }
    assert(row_texts(headers@)[at as int] == headers@[at as int]@);
    let mut cells: Vec<String> = Vec::new();
    let mut i: usize = 0;
    assert(row_texts(cells@) =~= Seq::<Seq<char>>::empty());
    while i < records.len()
        invariant
            i <= records@.len(),
            row_texts(cells@) == column_cells(rows_texts(records@), at as int, i as nat),
        decreases records@.len() - i,
    {
        let ghost before = row_texts(cells@);
        assert(rows_texts(records@)[i as int] == row_texts(records@[i as int]@));
        if at < records[i].len() {
            let cell: &str = trim(records[i][at].as_str());
            if cell.unicode_len() > 0 {
                let owned: String = cell.to_owned();
                cells.push(owned);
                assert(row_texts(cells@) =~= before.push(cell@));
            }
        }
        i += 1;
    }
    Some(cells)
}

/// The headers of a CSV text: what `csv` reads as its first record. Nothing where it cannot be read.
pub uninterp spec fn csv_headers(bytes: Seq<u8>) -> Option<Seq<Seq<char>>>;

/// The records of a CSV text behind its headers: what `csv` reads, and nothing for a record that it
/// refuses.
pub uninterp spec fn csv_records(bytes: Seq<u8>) -> Seq<Option<Seq<Seq<char>>>>;

/// What a record that was read holds.
pub open spec fn record_texts(r: Result<Vec<String>, String>) -> Option<Seq<Seq<char>>> {
    match r {
        Ok(row) => Some(row_texts(row@)),
        Err(_) => None,
    }
}

/// Calls `csv::Reader::from_reader` on the bytes and then `headers`. What the headers are, and whether
/// they can be read, depends on the bytes alone.
#[verifier::external_body]
fn read_headers(bytes: &[u8]) -> (r: Result<Vec<String>, String>)
    ensures
        record_texts(r) == csv_headers(bytes@),
{
    match csv::Reader::from_reader(bytes).headers() {
        Ok(row) => Ok(row.iter().map(str::to_string).collect()),
        Err(e) => Err(e.to_string()),
    }
}

/// Calls `csv::Reader::from_reader` on the bytes and lists what `records` gives. What the records are,
/// and which are refused, depends on the bytes alone.
#[verifier::external_body]
fn read_records(bytes: &[u8]) -> (r: Vec<Result<Vec<String>, String>>)
    ensures
        r@.map_values(|row: Result<Vec<String>, String>| record_texts(row)) == csv_records(bytes@),
{
    let mut reader = csv::Reader::from_reader(bytes);
    reader
        .records()
        .map(|read| match read {
            Ok(row) => Ok(row.iter().map(str::to_string).collect()),
            Err(e) => Err(e.to_string()),
        })
        .collect()
}

/// Why a table has no series.
#[derive(Debug)]
pub enum SeriesError {
    /// The headers cannot be read.
    Headers { reason: String },
    /// There is no such column.
    NoColumn,
}

/// The cells of a series.
#[derive(Debug)]
pub struct SeriesCells {
    pub cells: Vec<String>,
    /// Why the record behind the last cell was refused, if one was.
    pub refused: Option<String>,
}

/// How many records come before the first that is refused.
pub open spec fn accepted(records: Seq<Option<Seq<Seq<char>>>>) -> nat
    decreases records.len(),
{
    if records.len() == 0 || records[0] is None {
        0
    } else {
        1 + accepted(records.drop_first())
    }
}

/// The records that come before the first that is refused.
pub open spec fn accepted_rows(records: Seq<Option<Seq<Seq<char>>>>) -> Seq<Seq<Seq<char>>> {
    Seq::new(accepted(records), |i: int| records[i]->0)
}

proof fn lemma_accepted(records: Seq<Option<Seq<Seq<char>>>>, n: int)
    requires
        0 <= n <= records.len(),
        forall|i: int| 0 <= i < n ==> (#[trigger] records[i]) is Some,
        n == records.len() || records[n] is None,
    ensures
        accepted(records) == n,
    decreases records.len(),
{
    if n > 0 {
        let rest = records.drop_first();
        assert forall|i: int| 0 <= i < n - 1 implies (#[trigger] rest[i]) is Some by {
            assert(rest[i] == records[i + 1]);
        }
        if n < records.len() {
            assert(rest[n - 1] == records[n]);
        }
        lemma_accepted(rest, n - 1);
    }
}

/// The cells of a column of a CSV text, up to the first record that is refused.
pub fn load_series(bytes: &[u8], spec: &DatasetSpec) -> (r: Result<SeriesCells, SeriesError>)
    ensures
        match csv_headers(bytes@) {
            None => r matches Err(SeriesError::Headers { .. }),
            Some(headers) => {
                let at = column_place(headers, spec.col@, 0);
                let rows = accepted_rows(csv_records(bytes@));
                match r {
                    Ok(s) => at < headers.len() && row_texts(s.cells@) == column_cells(rows, at, rows.len()) && (
                    s.refused is Some <==> rows.len() < csv_records(bytes@).len()),
                    Err(SeriesError::NoColumn) => at == headers.len(),
                    Err(SeriesError::Headers { .. }) => false,
                }
            },
        },
{
    let headers: Vec<String> = match read_headers(bytes) {
        Ok(headers) => headers,
        Err(reason) => return Err(SeriesError::Headers { reason }),
    };
    let read: Vec<Result<Vec<String>, String>> = read_records(bytes);
    let ghost records = csv_records(bytes@);
    let mut rows: Vec<Vec<String>> = Vec::new();
    let mut refused: Option<String> = None;
    let ghost all = read@;
    assert(records.len() == all.len());
    for row in it: read
        invariant
            it.seq() == all,
            records == all.map_values(|row: Result<Vec<String>, String>| record_texts(row)),
            rows@.len() <= it.index() <= all.len(),
            refused is None ==> rows@.len() == it.index(),
            refused is Some ==> rows@.len() < it.index() && records[rows@.len() as int] is None,
            forall|i: int| 0 <= i < rows@.len() ==> records[i] == Some(row_texts((#[trigger] rows@[i])@)),
    {
        assert(record_texts(row) == records[it.index() as int]);
        if refused.is_none() {
            match row {
                Ok(texts) => rows.push(texts),
                Err(reason) => {
                    refused = Some(reason);
                },
            }
        }
    }
    proof {
        assert forall|i: int| 0 <= i < rows@.len() implies (#[trigger] records[i]) is Some by {
            assert(records[i] == Some(row_texts(rows@[i]@)));
        }
        lemma_accepted(records, rows@.len() as int);
        assert(rows_texts(rows@) =~= accepted_rows(records));
    }
    match series_cells(&headers, &rows, spec.col) {
        Some(cells) => Ok(SeriesCells { cells, refused }),
        None => Err(SeriesError::NoColumn),
    }
}

/// The datasets of the benchmark.
pub proof fn law_datasets_listed()
    ensures
        dataset_list().len() == 21,
        dataset_list()[0] == (DatasetSpec { name: "ETTh1", file: "ETTh1.csv", col: "OT", test_rows: 2880, freq: "1h", domain: "Energy" }),
        dataset_list()[1] == (DatasetSpec { name: "ETTh2", file: "ETTh2.csv", col: "OT", test_rows: 2880, freq: "1h", domain: "Energy" }),
        dataset_list()[2] == (DatasetSpec { name: "ETTm1", file: "ETTm1.csv", col: "OT", test_rows: 11520, freq: "15min", domain: "Energy" }),
        dataset_list()[3] == (DatasetSpec { name: "ETTm2", file: "ETTm2.csv", col: "OT", test_rows: 11520, freq: "15min", domain: "Energy" }),
        dataset_list()[4] == (DatasetSpec { name: "electricity", file: "electricity_h1.csv", col: "value", test_rows: 2880, freq: "1h", domain: "Energy" }),
        dataset_list()[5] == (DatasetSpec { name: "solar", file: "solar_1h.csv", col: "value", test_rows: 2000, freq: "1h", domain: "Energy" }),
        dataset_list()[6] == (DatasetSpec { name: "wind", file: "wind_farms_h1.csv", col: "value", test_rows: 2000, freq: "1h", domain: "Energy" }),
        dataset_list()[7] == (DatasetSpec { name: "aus_electricity", file: "aus_electricity_30min.csv", col: "value", test_rows: 20000, freq: "30min", domain: "Energy" }),
        dataset_list()[8] == (DatasetSpec { name: "weather", file: "weather_s1.csv", col: "value", test_rows: 1000, freq: "1h", domain: "Climate" }),
        dataset_list()[9] == (DatasetSpec { name: "weather_10min", file: "weather_10min.csv", col: "OT", test_rows: 10560, freq: "10min", domain: "Climate" }),
        dataset_list()[10] == (DatasetSpec { name: "jena", file: "jena_10min.csv", col: "value", test_rows: 10560, freq: "10min", domain: "Climate" }),
        dataset_list()[11] == (DatasetSpec { name: "melbourne_temp", file: "melbourne_temp.csv", col: "value", test_rows: 365, freq: "1d", domain: "Climate" }),
        dataset_list()[12] == (DatasetSpec { name: "co2", file: "co2_weekly.csv", col: "value", test_rows: 300, freq: "1w", domain: "Climate" }),
        dataset_list()[13] == (DatasetSpec { name: "sunspot_daily", file: "sunspot_daily.csv", col: "value", test_rows: 5000, freq: "1d", domain: "Astronomy" }),
        dataset_list()[14] == (DatasetSpec { name: "sunspot_monthly", file: "sunspot_monthly.csv", col: "value", test_rows: 300, freq: "1mo", domain: "Astronomy" }),
        dataset_list()[15] == (DatasetSpec { name: "ili", file: "ili.csv", col: "OT", test_rows: 200, freq: "1w", domain: "Health" }),
        dataset_list()[16] == (DatasetSpec { name: "exchange", file: "exchange_rate.csv", col: "OT", test_rows: 1500, freq: "1d", domain: "Finance" }),
        dataset_list()[17] == (DatasetSpec { name: "m4_daily", file: "m4_daily.csv", col: "value", test_rows: 2000, freq: "1d", domain: "Finance" }),
        dataset_list()[18] == (DatasetSpec { name: "traffic", file: "traffic_h1.csv", col: "OT", test_rows: 2880, freq: "1h", domain: "Transport" }),
        dataset_list()[19] == (DatasetSpec { name: "pedestrian", file: "pedestrian_counts.csv", col: "value", test_rows: 5000, freq: "1h", domain: "Transport" }),
        dataset_list()[20] == (DatasetSpec { name: "saugeeen", file: "saugeeen_river.csv", col: "value", test_rows: 2000, freq: "1d", domain: "Hydrology" }),
{
}

proof fn lemma_place_from(list: Seq<DatasetSpec>, name: Seq<char>, from: int)
    requires
        0 <= from <= list.len(),
    ensures
        from <= place_of(list, name, from) <= list.len(),
        place_of(list, name, from) < list.len() ==> list[place_of(list, name, from)].name@ == name,
        forall|i: int| from <= i < place_of(list, name, from) ==> (#[trigger] list[i]).name@ != name,
    decreases list.len() - from,
{
    if from < list.len() && list[from].name@ != name {
        lemma_place_from(list, name, from + 1);
    }
}

/// A dataset's place is the first one with its name, and the length where there is none.
pub proof fn law_places_of_datasets(list: Seq<DatasetSpec>, name: Seq<char>)
    ensures
        0 <= place_of(list, name, 0) <= list.len(),
        place_of(list, name, 0) < list.len() ==> list[place_of(list, name, 0)].name@ == name,
        forall|i: int| 0 <= i < place_of(list, name, 0) ==> (#[trigger] list[i]).name@ != name,
{
    lemma_place_from(list, name, 0);
}

proof fn lemma_column_from(headers: Seq<Seq<char>>, col: Seq<char>, from: int)
    requires
        0 <= from <= headers.len(),
    ensures
        from <= column_place(headers, col, from) <= headers.len(),
        column_place(headers, col, from) < headers.len() ==> headers[column_place(headers, col, from)] == col,
        forall|i: int| from <= i < column_place(headers, col, from) ==> #[trigger] headers[i] != col,
    decreases headers.len() - from,
{
    if from < headers.len() && headers[from] != col {
        lemma_column_from(headers, col, from + 1);
    }
}

/// A column's place is the first one with its header, and the length where there is none.
pub proof fn law_places_of_columns(headers: Seq<Seq<char>>, col: Seq<char>)
    ensures
        0 <= column_place(headers, col, 0) <= headers.len(),
        column_place(headers, col, 0) < headers.len() ==> headers[column_place(headers, col, 0)] == col,
        forall|i: int| 0 <= i < column_place(headers, col, 0) ==> #[trigger] headers[i] != col,
{
    lemma_column_from(headers, col, 0);
}

proof fn lemma_cells_of_first(a: Seq<Seq<Seq<char>>>, b: Seq<Seq<Seq<char>>>, at: int, m: nat)
    requires
        m <= a.len(),
        m <= b.len(),
        forall|i: int| 0 <= i < m ==> a[i] == b[i],
    ensures
        column_cells(a, at, m) == column_cells(b, at, m),
    decreases m,
{
    if m > 0 {
        lemma_cells_of_first(a, b, at, (m - 1) as nat);
    }
}

/// Each row adds its cell, without the space around it; a row that is too short, or whose cell is
/// blank, adds none.
pub proof fn law_rows_add_their_cells(records: Seq<Seq<Seq<char>>>, row: Seq<Seq<char>>, at: int)
    requires
        0 <= at,
    ensures
        column_cells(Seq::empty(), at, 0) == Seq::<Seq<char>>::empty(),
        at < row.len() && trimmed(row[at]).len() > 0 ==> column_cells(records.push(row), at, records.len() + 1)
            == column_cells(records, at, records.len()).push(trimmed(row[at])),
        at >= row.len() || trimmed(row[at]).len() == 0 ==> column_cells(records.push(row), at, records.len() + 1)
            == column_cells(records, at, records.len()),
{
    lemma_cells_of_first(records, records.push(row), at, records.len());
}

proof fn lemma_trimmed_start(s: Seq<char>)
    ensures
        trimmed_start(s).len() <= s.len(),
        trimmed_start(s) == s.skip(s.len() - trimmed_start(s).len()),
        trimmed_start(s).len() > 0 ==> !is_space(trimmed_start(s)[0]),
        forall|i: int| 0 <= i < s.len() - trimmed_start(s).len() ==> is_space(#[trigger] s[i]),
    decreases s.len(),
{
    if s.len() > 0 && is_space(s[0]) {
        let r = s.drop_first();
        lemma_trimmed_start(r);
        assert(r.skip(r.len() - trimmed_start(r).len()) =~= s.skip(s.len() - trimmed_start(s).len()));
        assert forall|i: int| 0 <= i < s.len() - trimmed_start(s).len() implies is_space(#[trigger] s[i]) by {
            if i > 0 {
                assert(r[i - 1] == s[i]);
            }
        }
    } else {
        assert(s.skip(0) =~= s);
    }
}

proof fn lemma_trimmed_end(s: Seq<char>)
    ensures
        trimmed_end(s).len() <= s.len(),
        trimmed_end(s) == s.take(trimmed_end(s).len() as int),
        trimmed_end(s).len() > 0 ==> !is_space(trimmed_end(s).last()),
        forall|i: int| trimmed_end(s).len() <= i < s.len() ==> is_space(#[trigger] s[i]),
    decreases s.len(),
{
    if s.len() > 0 && is_space(s.last()) {
        let r = s.drop_last();
        lemma_trimmed_end(r);
        assert(r.take(trimmed_end(r).len() as int) =~= s.take(trimmed_end(s).len() as int));
        assert forall|i: int| trimmed_end(s).len() <= i < s.len() implies is_space(#[trigger] s[i]) by {
            if i < s.len() - 1 {
                assert(r[i] == s[i]);
            }
        }
    } else {
        assert(s.take(s.len() as int) =~= s);
    }
}

/// Trimming takes the space off both ends and nothing else: what is left stands in the text, has no
/// space at its ends, and has only space around it.
pub proof fn law_trimming_takes_space_off(s: Seq<char>)
    ensures
        exists|i: int, j: int|
            {
                &&& 0 <= i <= j <= s.len()
                &&& trimmed(s) == #[trigger] s.subrange(i, j)
                &&& forall|k: int| 0 <= k < s.len() && (k < i || j <= k) ==> is_space(#[trigger] s[k])
            },
        trimmed(s).len() > 0 ==> !is_space(trimmed(s)[0]) && !is_space(trimmed(s).last()),
{
    let a = trimmed_start(s);
    lemma_trimmed_start(s);
    lemma_trimmed_end(a);
    let t = trimmed_end(a);
    let i = s.len() - a.len();
    let j = i + t.len();
    assert(s.subrange(i, j) =~= t);
    assert forall|k: int| 0 <= k < s.len() && (k < i || j <= k) implies is_space(#[trigger] s[k]) by {
        if k >= j {
            assert(a[k - i] == s[k]);
        }
    }
    if t.len() > 0 {
        assert(t[0] == a[0]);
    }
}

/// The blanks of ASCII are space, and its signs, digits and letters are not.
pub proof fn law_blanks_are_space(c: char)
    ensures
        is_space(' ') && is_space('\t') && is_space('\n') && is_space('\r'),
        '!' <= c <= '~' ==> !is_space(c),
{
}

/// Records are taken up to the first that cannot be read.
pub proof fn law_records_up_to_the_first_bad(records: Seq<Option<Seq<Seq<char>>>>)
    ensures
        accepted(records) <= records.len(),
        forall|i: int| 0 <= i < accepted(records) ==> #[trigger] records[i] is Some,
        accepted(records) < records.len() ==> records[accepted(records) as int] is None,
        accepted_rows(records).len() == accepted(records),
        forall|i: int| 0 <= i < accepted(records) ==> #[trigger] accepted_rows(records)[i] == records[i]->0,
    decreases records.len(),
{
    if records.len() > 0 && records[0] is Some {
        let r = records.drop_first();
        law_records_up_to_the_first_bad(r);
        assert forall|i: int| 0 <= i < accepted(records) implies #[trigger] records[i] is Some by {
            if i > 0 {
                assert(r[i - 1] == records[i]);
            }
        }
        if accepted(records) < records.len() {
            assert(r[accepted(r) as int] == records[accepted(records) as int]);
        }
    }
}

} // verus!
